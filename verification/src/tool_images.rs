//! Image blocks in native tool results.

use vstd::prelude::*;

use crate::json::{Json, JsonView};
#[allow(unused_imports)]
use crate::json::jsons;
#[allow(unused_imports)]
use crate::lists::{lemma_somes_from, lemma_somes_next, somes};
use crate::proto::{no_events, push_event, AgentEvent, EventView};
#[allow(unused_imports)]
use crate::proto::events as event_views;
#[allow(unused_imports)]
use crate::text::{
    after_prefix, before_suffix, byte_len, decimal, lemma_decimal_injective, parted,
};
use crate::text::{decimal_text, same_text, split_once, strip_prefix, strip_suffix, text_len};

verus! {

/// The most Base64 that an image may have: an encoded raster of 24 MiB. The
/// engine checks the decoded size and the raster signature.
pub const MAX_BASE64: usize = 33_554_432;

/// The data and the media type in a `data:` URL with Base64 content.
pub open spec fn data_url(url: Seq<char>) -> Option<(Seq<char>, Seq<char>)> {
    match parted(url, ',') {
        Some((header, data)) => match after_prefix(header, "data:"@) {
            Some(rest) => match before_suffix(rest, ";base64"@) {
                Some(mime) => Some((data, mime)),
                None => None,
            },
            None => None,
        },
        None => None,
    }
}

/// Whether a block of this kind carries its image in a URL.
pub open spec fn is_input_image(kind: Option<Seq<char>>) -> bool {
    kind == Some("input_image"@) || kind == Some("inputImage"@)
}

/// The URL of an input image.
pub open spec fn image_url(block: JsonView) -> Option<Seq<char>> {
    match block.get("image_url"@) {
        Some(url) => url.as_text(),
        None => block.field("imageUrl"@),
    }
}

/// The data and the media type of a block that carries an image.
pub open spec fn image_source(block: JsonView) -> Option<(Seq<char>, Seq<char>)> {
    let kind = block.field("type"@);
    if kind == Some("image"@) {
        match (block.field("data"@), block.field("mimeType"@)) {
            (Some(data), Some(mime)) => Some((data, mime)),
            _ => None,
        }
    } else if is_input_image(kind) {
        match image_url(block) {
            Some(url) => data_url(url),
            None => None,
        }
    } else {
        None
    }
}

/// Whether images of this media type are shown.
pub open spec fn is_raster(mime: Seq<char>) -> bool {
    mime == "image/png"@ || mime == "image/jpeg"@ || mime == "image/webp"@ || mime
        == "image/gif"@
}

/// The name of the image at an index of a tool's result.
pub open spec fn image_id(tool_id: Seq<char>, index: nat) -> Seq<char> {
    tool_id + ":image:"@ + decimal(index)
}

/// What becomes of the block at an index of a tool's result.
pub open spec fn image_event(tool_id: Seq<char>, index: nat, block: JsonView) -> Option<EventView> {
    match image_source(block) {
        Some((data, mime)) => if !is_raster(mime) {
            None
        } else if byte_len(data) > MAX_BASE64 {
            Some(EventView::Error { message: "Tool image exceeds the 24 MiB limit"@ })
        } else {
            Some(EventView::InlineImage { id: image_id(tool_id, index), data, mime_type: mime })
        },
        None => None,
    }
}

/// What becomes of each block of a tool's result.
pub open spec fn block_events(tool_id: Seq<char>, blocks: Seq<JsonView>) -> Seq<
    Option<EventView>,
> {
    Seq::new(blocks.len(), |i: int| image_event(tool_id, i as nat, blocks[i]))
}

/// The images of a tool's result, in order.
pub open spec fn image_events(tool_id: Seq<char>, content: JsonView) -> Seq<EventView> {
    match content {
        JsonView::Array(blocks) => somes(block_events(tool_id, blocks)),
        _ => Seq::empty(),
    }
}

/// The data and the media type in a `data:` URL with Base64 content.
fn read_data_url(url: &str) -> (source: Option<(&str, &str)>)
    ensures
        match source {
            Some((data, mime)) => data_url(url@) == Some((data@, mime@)),
            None => data_url(url@) is None,
        },
{
    match split_once(url, ',') {
        Some((header, data)) => match strip_prefix(header, "data:") {
            Some(rest) => match strip_suffix(rest, ";base64") {
                Some(mime) => Some((data, mime)),
                None => None,
            },
            None => None,
        },
        None => None,
    }
}

/// The data and the media type of a block that carries an image.
fn read_image(block: &Json) -> (source: Option<(&str, &str)>)
    ensures
        match source {
            Some((data, mime)) => image_source(block@) == Some((data@, mime@)),
            None => image_source(block@) is None,
        },
{
    let kind = match block.field("type") {
        Some(kind) => kind,
        None => {
            return None;
        },
    };
    if same_text(kind, "image") {
        match (block.field("data"), block.field("mimeType")) {
            (Some(data), Some(mime)) => Some((data, mime)),
            _ => None,
        }
    } else if same_text(kind, "input_image") || same_text(kind, "inputImage") {
        let url = match block.get("image_url") {
            Some(url) => url.as_text(),
            None => block.field("imageUrl"),
        };
        match url {
            Some(url) => read_data_url(url),
            None => None,
        }
    } else {
        None
    }
}

/// What becomes of the block at an index of a tool's result.
fn read_block(tool_id: &str, index: usize, block: &Json) -> (event: Option<AgentEvent>)
    ensures
        match event {
            Some(event) => image_event(tool_id@, index as nat, block@) == Some(event@),
            None => image_event(tool_id@, index as nat, block@) is None,
        },
{
    match read_image(block) {
        Some((data, mime)) => {
            if !(same_text(mime, "image/png") || same_text(mime, "image/jpeg") || same_text(
                mime,
                "image/webp",
            ) || same_text(mime, "image/gif")) {
                return None;
            }
            if text_len(data) > MAX_BASE64 {
                return Some(
                    AgentEvent::Error { message: "Tool image exceeds the 24 MiB limit".to_owned() },
                );
            }
            let id = tool_id.to_owned().concat(":image:").concat(
                decimal_text(index as u64).as_str(),
            );
            Some(
                AgentEvent::InlineImage { id, data: data.to_owned(), mime_type: mime.to_owned() },
            )
        },
        None => None,
    }
}

/// The images in a tool's result, in order; too large a one becomes an error.
pub fn events(tool_id: &str, content: &Json) -> (found: Vec<AgentEvent>)
    ensures
        event_views(found@) == image_events(tool_id@, content@),
{
    let blocks = match content.as_array() {
        Some(blocks) => blocks,
        None => {
            return no_events();
        },
    };
    let ghost all = block_events(tool_id@, jsons(blocks@));
    let mut found = no_events();
    let mut i: usize = 0;
    proof {
        assert(all.take(0) =~= Seq::<Option<EventView>>::empty());
    }
    while i < blocks.len()
        invariant
            i <= blocks@.len(),
            all == block_events(tool_id@, jsons(blocks@)),
            event_views(found@) == somes(all.take(i as int)),
        decreases blocks@.len() - i,
    {
        proof {
            lemma_somes_next(all, i as int);
        }
        match read_block(tool_id, i, &blocks[i]) {
            Some(event) => {
                push_event(&mut found, event);
            },
            None => {},
        }
        i = i + 1;
    }
    proof {
        assert(all.take(i as int) =~= all);
    }
    found
}

/// What an image block becomes is an image or an error.
pub proof fn lemma_image_events_are(tool_id: Seq<char>, content: JsonView, k: int)
    requires
        0 <= k < image_events(tool_id, content).len(),
    ensures
        image_events(tool_id, content)[k] is InlineImage || image_events(tool_id, content)[k] is Error,
{
    match content {
        JsonView::Array(blocks) => {
            lemma_somes_from(block_events(tool_id, blocks), k);
        },
        _ => {},
    }
}

/// No two images of one tool's result have the same name.
pub proof fn image_names_differ(tool_id: Seq<char>, i: nat, j: nat)
    requires
        i != j,
    ensures
        image_id(tool_id, i) != image_id(tool_id, j),
{
    let stem = tool_id + ":image:"@;
    if image_id(tool_id, i) == image_id(tool_id, j) {
        assert(decimal(i) =~= image_id(tool_id, i).skip(stem.len() as int));
        assert(decimal(j) =~= image_id(tool_id, j).skip(stem.len() as int));
        lemma_decimal_injective(i, j);
    }
}

/// No image that is shown is larger than the limit, and each is of a media type
/// that is shown.
pub proof fn images_keep_to_the_limit(tool_id: Seq<char>, content: JsonView, k: int)
    requires
        0 <= k < image_events(tool_id, content).len(),
        image_events(tool_id, content)[k] is InlineImage,
    ensures
        byte_len(image_events(tool_id, content)[k]->InlineImage_data) <= MAX_BASE64,
        is_raster(image_events(tool_id, content)[k]->InlineImage_mime_type),
{
    match content {
        JsonView::Array(blocks) => {
            lemma_somes_from(block_events(tool_id, blocks), k);
        },
        _ => {},
    }
}

} // verus!
