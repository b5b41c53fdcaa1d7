//! Pictures that go along with a prompt.

use vstd::prelude::*;

use base64::Engine;

use crate::file_names::path_extension;
#[allow(unused_imports)]
use crate::file_names::{has_plain_extension, stands_behind_dot};
use crate::json::{Json, JsonView};
#[allow(unused_imports)]
use crate::json::{empty_object, opt_str};
use crate::text::lower_is;
#[allow(unused_imports)]
use crate::text::lowered;

verus! {

/// The most bytes that a picture may have.
pub const MAX_IMAGE: usize = 5_242_880;

/// The media type of a picture, by the extension of its file.
pub open spec fn media_type(extension: Seq<char>) -> Option<Seq<char>> {
    let lower = lowered(extension);
    if lower == "png"@ {
        Some("image/png"@)
    } else if lower == "jpg"@ || lower == "jpeg"@ {
        Some("image/jpeg"@)
    } else if lower == "gif"@ {
        Some("image/gif"@)
    } else if lower == "webp"@ {
        Some("image/webp"@)
    } else {
        None
    }
}

/// A byte, or 0 past the end.
pub open spec fn byte_at(bytes: Seq<u8>, i: int) -> int {
    if i < bytes.len() {
        bytes[i] as int
    } else {
        0
    }
}

/// The group of six bits at an index, counted from the front. It lies within
/// two bytes, behind zero, six, four or two bits of the first.
pub open spec fn sextet(bytes: Seq<u8>, i: int) -> int {
    let first = 3 * (i / 4) + 3 * (i % 4) / 4;
    let word = 256 * byte_at(bytes, first) + byte_at(bytes, first + 1);
    let below = if i % 4 == 0 {
        1024int
    } else if i % 4 == 1 {
        16
    } else if i % 4 == 2 {
        64
    } else {
        256
    };
    (word / below) % 64
}

/// The character for six bits.
pub open spec fn sextet_char(n: int) -> char {
    if n < 26 {
        (n + 'A' as int) as char
    } else if n < 52 {
        (n - 26 + 'a' as int) as char
    } else if n < 62 {
        (n - 52 + '0' as int) as char
    } else if n == 62 {
        '+'
    } else {
        '/'
    }
}

/// Some bytes in Base64, with the standard alphabet, filled up with `=` to a
/// multiple of four characters.
pub open spec fn base64_of(bytes: Seq<u8>) -> Seq<char> {
    Seq::new(
        (4 * ((bytes.len() + 2) / 3)) as nat,
        |i: int|
            if 6 * i < 8 * bytes.len() {
                sextet_char(sextet(bytes, i))
            } else {
                '='
            },
    )
}

/// A picture as it goes along with a prompt.
pub open spec fn picture(mime: Seq<char>, bytes: Seq<u8>) -> JsonView {
    empty_object().set("type"@, JsonView::Text("image"@)).set("mimeType"@, JsonView::Text(mime)).set(
        "data"@,
        JsonView::Text(base64_of(bytes)),
    )
}

/// `base64::engine::general_purpose::STANDARD`, `Engine::encode`. Trusted: the
/// bytes in Base64 with the standard alphabet, filled up with `=`. A picture of
/// more than the limit is not encoded, so that the length of the text, at which
/// the encoder would give up, cannot overflow.
#[verifier::external_body]
fn encode(bytes: &Vec<u8>) -> (text: String)
    requires
        bytes@.len() <= MAX_IMAGE,
    ensures
        text@ == base64_of(bytes@),
{
    base64::engine::general_purpose::STANDARD.encode(bytes)
}

/// The media type of a picture, by the extension of its file.
pub fn extension_type(extension: &str) -> (mime: Option<&'static str>)
    ensures
        opt_str(mime) == media_type(extension@),
{
    if lower_is(extension, "png") {
        Some("image/png")
    } else if lower_is(extension, "jpg") || lower_is(extension, "jpeg") {
        Some("image/jpeg")
    } else if lower_is(extension, "gif") {
        Some("image/gif")
    } else if lower_is(extension, "webp") {
        Some("image/webp")
    } else {
        None
    }
}

/// The media type of a picture, by the path of its file. Of some paths, what
/// the extension is differs from machine to machine.
pub fn path_type(path: &str) -> (mime: Option<&'static str>)
    ensures
        forall|extension: Seq<char>| #[trigger]
            has_plain_extension(path@, extension) ==> opt_str(mime) == media_type(extension),
        mime is Some ==> exists|extension: Seq<char>| #[trigger]
            media_type(extension) == opt_str(mime) && stands_behind_dot(path@, extension),
{
    match path_extension(path) {
        Some(extension) => extension_type(extension.as_str()),
        None => None,
    }
}

/// A picture as it goes along with a prompt, if it is not too large.
pub fn inline_image(mime: &str, bytes: &Vec<u8>) -> (image: Option<Json>)
    ensures
        match image {
            Some(image) => bytes@.len() <= MAX_IMAGE && image@ == picture(mime@, bytes@),
            None => bytes@.len() > MAX_IMAGE,
        },
{
    if bytes.len() > MAX_IMAGE {
        return None;
    }
    let data = encode(bytes);
    Some(
        Json::object().set("type", Json::text("image")).set("mimeType", Json::text(mime)).set(
            "data",
            Json::Text(data),
        ),
    )
}

} // verus!
