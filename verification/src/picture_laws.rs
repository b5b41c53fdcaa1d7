//! What holds of every picture: those of tools, those in rollouts, those that
//! are left out of what is published, and those that go along with a prompt.

use vstd::prelude::*;
#[allow(unused_imports)]
use vstd::utf8::encode_utf8;

#[allow(unused_imports)]
use crate::attachments::{base64_of, byte_at, extension_type, inline_image, sextet, sextet_char};
#[allow(unused_imports)]
use crate::event_laws::says;
#[allow(unused_imports)]
use crate::json::{
    empty_object, lemma_get_set, lemma_position, lemma_position_is, lemma_set_same, lookup, opt_str,
    position, without_field, Fields, Json, JsonView,
};
#[allow(unused_imports)]
use crate::lists::joined;
#[allow(unused_imports)]
use crate::media::{
    lemma_names, lemma_omitting_lookup, lemma_scrubbed_fields, lemma_scrubbed_items, omitting,
    own_omitted, scrubbed, scrubbed_fields, without_data, without_image_data, without_url,
};
#[allow(unused_imports)]
use crate::proto::{events as event_views, AgentEvent, ErrorView, EventView, HarnessError};
#[allow(unused_imports)]
use crate::rollout::{
    all_short, followed, images_of, line_images, pieces, record_images, whole, RolloutImages,
};
#[allow(unused_imports)]
use crate::text::{char_position, decimal, lowered};
#[allow(unused_imports)]
use crate::text_laws::lemma_char_position;
#[allow(unused_imports)]
use crate::tool_images::{block_events, data_url, events, image_event, image_source, image_url};
#[allow(unused_imports)]
use crate::wire::parsed_bytes;

verus! {

/// Whether a URL holds Base64 data of a media type.
pub open spec fn is_data_url(url: Seq<char>, data: Seq<char>, mime: Seq<char>) -> bool {
    url == "data:"@ + mime + ";base64,"@ + data && !mime.contains(',')
}

/// The URL of a block, by whichever of two names it has; the first counts.
pub open spec fn has_url(block: JsonView, url: Seq<char>) -> bool {
    says(block, "image_url"@, url) || (block.get("image_url"@) is None && says(
        block,
        "imageUrl"@,
        url,
    ))
}

/// Whether a block is a picture with some data and a media type: it has them as
/// they are, or in a URL.
pub open spec fn is_picture(block: JsonView, data: Seq<char>, mime: Seq<char>) -> bool {
    ||| says(block, "type"@, "image"@) && says(block, "data"@, data) && says(
        block,
        "mimeType"@,
        mime,
    )
    ||| (says(block, "type"@, "input_image"@) || says(block, "type"@, "inputImage"@)) && exists|
        url: Seq<char>,
    | #[trigger]
        has_url(block, url) && is_data_url(url, data, mime)
}

/// Whether pictures of a media type are shown.
pub open spec fn is_shown_type(mime: Seq<char>) -> bool {
    mime == "image/png"@ || mime == "image/jpeg"@ || mime == "image/webp"@ || mime == "image/gif"@
}

proof fn lemma_data_url(url: Seq<char>, data: Seq<char>, mime: Seq<char>)
    ensures
        is_data_url(url, data, mime) <==> data_url(url) == Some((data, mime)),
{
    reveal_strlit("data:");
    reveal_strlit(";base64");
    reveal_strlit(";base64,");
    assert("data:"@.len() == 5);
    assert(";base64"@.len() == 7);
    assert(";base64,"@.len() == 8);
    let head = "data:"@ + mime + ";base64"@;
    lemma_char_position(url, ',');
    let at = char_position(url, ',');
    assert forall|i: int| 0 <= i < 7 implies ";base64,"@[i] == ";base64"@[i] && ";base64"@[i]
        != ',' by {}
    assert forall|i: int| 0 <= i < 5 implies "data:"@[i] != ',' by {}
    assert(";base64,"@[7] == ',');
    if is_data_url(url, data, mime) {
        assert(url =~= head.push(',') + data);
        assert forall|k: int| 0 <= k < head.len() implies #[trigger] url[k] != ',' by {
            if k < 5 {
                assert(url[k] == "data:"@[k]);
            } else if k < 5 + mime.len() {
                assert(url[k] == mime[k - 5]);
                assert(mime.contains(mime[k - 5]));
            } else {
                assert(url[k] == ";base64"@[k - 5 - mime.len()]);
            }
        }
        assert(url[head.len() as int] == ',');
        assert(at == head.len()) by {
            if at < head.len() {
                assert(url[at] != ',');
            } else if at > head.len() {
                assert(url[head.len() as int] != ',');
            }
        }
        assert(url.take(at) =~= head);
        assert(url.skip(at + 1) =~= data);
        assert("data:"@.is_prefix_of(head));
        let rest = head.skip(5);
        assert(rest =~= mime + ";base64"@);
        assert(";base64"@.is_suffix_of(rest));
        assert(rest.take(rest.len() - 7) =~= mime);
    }
    if data_url(url) == Some((data, mime)) {
        let header = url.take(at);
        assert(url =~= header.push(',') + url.skip(at + 1));
        let rest = header.skip(5);
        assert(header =~= "data:"@ + rest);
        assert(rest =~= mime + ";base64"@);
        assert(url =~= "data:"@ + mime + ";base64,"@ + data);
        if mime.contains(',') {
            let k = choose|k: int| 0 <= k < mime.len() && mime[k] == ',';
            assert(url[k + 5] == ',');
        }
    }
}

proof fn lemma_picture(block: JsonView)
    ensures
        forall|data: Seq<char>, mime: Seq<char>| #[trigger]
            is_picture(block, data, mime) <==> image_source(block) == Some((data, mime)),
{
    reveal_strlit("image");
    reveal_strlit("input_image");
    reveal_strlit("inputImage");
    assert("image"@.len() == 5);
    assert("input_image"@.len() == 11);
    assert("inputImage"@.len() == 10);
    assert forall|data: Seq<char>, mime: Seq<char>| #[trigger]
        is_picture(block, data, mime) <==> image_source(block) == Some((data, mime)) by {
        if says(block, "type"@, "input_image"@) || says(block, "type"@, "inputImage"@) {
            match image_url(block) {
                Some(url) => {
                    lemma_data_url(url, data, mime);
                    assert(has_url(block, url));
                },
                None => {},
            }
        }
    }
}

/// The pictures of a tool's result are shown in order, each under the name of
/// the tool and its place among the blocks: one block more adds its picture, if
/// it is one of a type that is shown, and nothing else. A picture of more than
/// 24 MiB is an error in its place.
pub proof fn the_pictures_of_a_result_are_shown_in_order(
    tool_id: &str,
    before: Json,
    after: Json,
    blocks: Seq<JsonView>,
    block: JsonView,
    first: Vec<AgentEvent>,
    all: Vec<AgentEvent>,
    data: Seq<char>,
    mime: Seq<char>,
)
    requires
        call_ensures(events, (tool_id, &before), first),
        call_ensures(events, (tool_id, &after), all),
        before@ == JsonView::Array(blocks),
        after@ == JsonView::Array(blocks.push(block)),
    ensures
        blocks.len() == 0 ==> first@.len() == 0,
        is_picture(block, data, mime) && is_shown_type(mime) && encode_utf8(data).len()
            <= 33_554_432 ==> event_views(all@) == event_views(first@).push(
            EventView::InlineImage {
                id: tool_id@ + ":image:"@ + decimal(blocks.len()),
                data,
                mime_type: mime,
            },
        ),
        is_picture(block, data, mime) && is_shown_type(mime) && encode_utf8(data).len()
            > 33_554_432 ==> event_views(all@) == event_views(first@).push(
            EventView::Error { message: "Tool image exceeds the 24 MiB limit"@ },
        ),
        is_picture(block, data, mime) && !is_shown_type(mime) ==> event_views(all@)
            == event_views(first@),
        !(exists|d: Seq<char>, m: Seq<char>| is_picture(block, d, m)) ==> event_views(all@)
            == event_views(first@),
{
    lemma_picture(block);
    let list = block_events(tool_id@, blocks.push(block));
    assert(list.drop_last() =~= block_events(tool_id@, blocks));
    assert(list.last() == image_event(tool_id@, blocks.len(), block));
    assert(event_views(first@).len() == first@.len());
    match image_source(block) {
        Some((d, m)) => {
            assert(is_picture(block, d, m));
        },
        None => {},
    }
}

/// What is no list of blocks has no pictures.
pub proof fn what_is_no_list_has_no_pictures(tool_id: &str, content: Json, found: Vec<AgentEvent>)
    requires
        call_ensures(events, (tool_id, &content), found),
        !(content@ is Array),
    ensures
        found@.len() == 0,
{
    assert(event_views(found@).len() == found@.len());
}

/// The pictures of a record of a rollout are those in the output of a tool call,
/// under the name of the call; any other record has none.
pub proof fn a_record_shows_the_pictures_of_a_tool_call(
    record: Json,
    found: Vec<AgentEvent>,
    call: &str,
    output: Json,
    pictures: Vec<AgentEvent>,
)
    requires
        call_ensures(record_images, (&record,), found),
        call_ensures(events, (call, &output), pictures),
    ensures
        says(record@, "type"@, "response_item"@) && (says(
            record@.at("payload"@),
            "type"@,
            "custom_tool_call_output"@,
        ) || says(record@.at("payload"@), "type"@, "function_call_output"@)) && says(
            record@.at("payload"@),
            "call_id"@,
            call@,
        ) && record@.at("payload"@).get("output"@) == Some(output@) ==> event_views(found@)
            == event_views(pictures@),
        !says(record@, "type"@, "response_item"@) || (!says(
            record@.at("payload"@),
            "type"@,
            "custom_tool_call_output"@,
        ) && !says(record@.at("payload"@), "type"@, "function_call_output"@)) || !(record@.at(
            "payload"@,
        ).get("call_id"@) matches Some(JsonView::Text(_))) ==> found@.len() == 0,
{
    assert(event_views(found@).len() == found@.len());
}

/// A rollout is followed if and only if its path is absolute and has the
/// extension of one: from its start, or from its end where it was there before.
pub proof fn a_rollout_is_followed(
    path: &str,
    absolute: bool,
    extension: Option<&str>,
    resumed: bool,
    length: u64,
    rollout: Option<RolloutImages>,
)
    requires
        call_ensures(RolloutImages::follow, (path, absolute, extension, resumed, length), rollout),
    ensures
        rollout is Some <==> absolute && (extension matches Some(extension) && extension@
            == "jsonl"@),
        rollout matches Some(rollout) ==> {
            &&& rollout@.path == path@
            &&& rollout@.offset == if resumed {
                length
            } else {
                0
            }
            &&& rollout@.pending.len() == 0
        },
{
}

/// A rollout is read on from where it was read to, unless it has become shorter
/// than that: then it is read from its start.
pub proof fn a_rollout_is_read_on(rollout: &mut RolloutImages, length: u64, offset: u64)
    requires
        call_ensures(RolloutImages::locate, (rollout, length), offset),
    ensures
        offset == final(rollout)@.offset,
        final(rollout)@.path == old(rollout)@.path,
        length >= old(rollout)@.offset ==> final(rollout)@ == old(rollout)@,
        length < old(rollout)@.offset ==> offset == 0 && final(rollout)@.pending.len() == 0,
{
}

proof fn lemma_no_line(bytes: Seq<u8>)
    requires
        !bytes.contains(10u8),
    ensures
        whole(bytes) == 0,
        pieces(bytes) == seq![bytes],
    decreases bytes.len(),
{
    if bytes.len() > 0 {
        let before = bytes.drop_last();
        assert(bytes.contains(bytes[bytes.len() - 1]));
        assert forall|i: int| 0 <= i < before.len() implies before[i] != 10u8 by {
            assert(bytes.contains(bytes[i]));
        }
        lemma_no_line(before);
        assert(before.push(bytes.last()) =~= bytes);
        assert(pieces(bytes) =~= seq![bytes]);
    } else {
        assert(bytes =~= Seq::<u8>::empty());
    }
}

/// Bytes that end no line are kept until the line ends, up to the limit of a
/// line of 40 MiB.
pub proof fn an_open_line_is_kept(
    rollout: &mut RolloutImages,
    appended: Vec<u8>,
    found: Result<Vec<AgentEvent>, HarnessError>,
)
    requires
        call_ensures(RolloutImages::take_appended, (rollout, appended), found),
        !(old(rollout)@.pending + appended@).contains(10u8),
    ensures
        old(rollout)@.pending.len() + appended@.len() <= 41_943_040 ==> found is Ok
            && found->Ok_0@.len() == 0 && final(rollout)@.pending == old(rollout)@.pending
            + appended@,
        old(rollout)@.pending.len() + appended@.len() > 41_943_040 ==> found is Err
            && found->Err_0@ == ErrorView::Io("Codex rollout item exceeds the image limit"@)
            && final(rollout)@.pending.len() == 0,
        final(rollout)@.path == old(rollout)@.path,
        old(rollout)@.offset + appended@.len() <= u64::MAX ==> final(rollout)@.offset
            == old(rollout)@.offset + appended@.len(),
{
    let all = old(rollout)@.pending + appended@;
    lemma_no_line(all);
    assert(all.take(0) =~= Seq::<u8>::empty());
    assert(all.skip(0) =~= all);
    let none = seq![Seq::<u8>::empty()];
    assert(pieces(Seq::<u8>::empty()) =~= none);
    let shown = none.map_values(|line: Seq<u8>| line_images(line));
    assert(shown =~= seq![Seq::<EventView>::empty()]);
    assert(shown.drop_last() =~= Seq::<Seq<EventView>>::empty());
    reveal_with_fuel(joined, 2);
    assert(images_of(none) =~= Seq::<EventView>::empty());
    match found {
        Ok(list) => {
            assert(event_views(list@).len() == list@.len());
        },
        Err(_) => {},
    }
}

/// A line that ends shows the pictures of its record, where it is one, and
/// nothing of it is kept; one of more than 40 MiB is an error.
pub proof fn a_line_that_ends_shows_its_pictures(
    rollout: &mut RolloutImages,
    appended: Vec<u8>,
    found: Result<Vec<AgentEvent>, HarnessError>,
    line: Seq<u8>,
    record: Json,
    pictures: Vec<AgentEvent>,
)
    requires
        call_ensures(RolloutImages::take_appended, (rollout, appended), found),
        call_ensures(record_images, (&record,), pictures),
        old(rollout)@.pending + appended@ == line.push(10u8),
        !line.contains(10u8),
    ensures
        final(rollout)@.pending.len() == 0,
        line.len() > 41_943_040 ==> found is Err && found->Err_0@ == ErrorView::Io(
            "Codex rollout item exceeds the image limit"@,
        ),
        line.len() <= 41_943_040 ==> found is Ok,
        0 < line.len() <= 41_943_040 && parsed_bytes(line) == Some(record@) ==> event_views(
            found->Ok_0@,
        ) == event_views(pictures@),
        line.len() <= 41_943_040 && (line.len() == 0 || parsed_bytes(line) is None)
            ==> found->Ok_0@.len() == 0,
{
    let all = line.push(10u8);
    lemma_no_line(line);
    assert(all.drop_last() =~= line);
    assert(whole(all) == all.len());
    assert(all.take(all.len() as int) =~= all);
    assert(all.skip(all.len() as int) =~= Seq::<u8>::empty());
    let lines = seq![line, Seq::<u8>::empty()];
    assert(pieces(all) =~= lines);
    let shown = lines.map_values(|l: Seq<u8>| line_images(l));
    assert(shown =~= seq![line_images(line), Seq::<EventView>::empty()]);
    assert(shown.drop_last() =~= seq![line_images(line)]);
    assert(shown.drop_last().drop_last() =~= Seq::<Seq<EventView>>::empty());
    reveal_with_fuel(joined, 3);
    assert(images_of(lines) =~= line_images(line));
    assert(lines[0] == line);
    assert(lines[1] == Seq::<u8>::empty());
    if line.len() <= 41_943_040 {
        assert forall|i: int| 0 <= i < lines.len() implies (#[trigger] lines[i]).len()
            <= 41_943_040 by {}
        assert(all_short(lines));
    } else {
        assert(!all_short(lines));
    }
    match found {
        Ok(list) => {
            assert(event_views(list@).len() == list@.len());
        },
        Err(_) => {},
    }
}

/// Whether the data of a picture are left out of an object, under a key: the
/// data of an image block, and a URL that holds an image.
pub open spec fn leaves_out(object: JsonView, key: Seq<char>) -> bool {
    ||| key == "data"@ && says(object, "type"@, "image"@) && object.get("data"@) is Some
    ||| (key == "image_url"@ || key == "imageUrl"@) && (says(object, "type"@, "input_image"@)
        || says(object, "type"@, "inputImage"@)) && (object.get(key) matches Some(
        JsonView::Text(url),
    ) && "data:image/"@.is_prefix_of(url))
}

proof fn lemma_scrubbed_lookup(fields: Fields, key: Seq<char>)
    ensures
        lookup(scrubbed_fields(fields), key) == match lookup(fields, key) {
            Some(value) => Some(scrubbed(value)),
            None => None,
        },
{
    lemma_scrubbed_fields(fields);
    let inner = scrubbed_fields(fields);
    lemma_position(fields, key);
    assert forall|k: int| 0 <= k < inner.len() implies (#[trigger] inner[k]).0 == fields[k].0 by {}
    lemma_position_is(inner, key, position(fields, key));
}

proof fn lemma_noted(fields: Fields, key: Seq<char>)
    ensures
        lookup(omitting(fields, key), "dataOmitted"@) == Some(JsonView::Bool(true)),
{
    lemma_set_same(without_field(fields, key), "dataOmitted"@, JsonView::Bool(true));
}

proof fn lemma_left_out(fields: Fields, key: Seq<char>)
    ensures
        ({
            let object = JsonView::Object(fields);
            let left = own_omitted(scrubbed_fields(fields));
            let kept = match lookup(fields, key) {
                Some(value) => Some(scrubbed(value)),
                None => None,
            };
            &&& key != "dataOmitted"@ ==> lookup(left, key) == if leaves_out(object, key) {
                None
            } else {
                kept
            }
            &&& leaves_out(object, "data"@) || leaves_out(object, "image_url"@) || leaves_out(
                object,
                "imageUrl"@,
            ) ==> lookup(left, "dataOmitted"@) == Some(JsonView::Bool(true))
            &&& !leaves_out(object, "data"@) && !leaves_out(object, "image_url"@) && !leaves_out(
                object,
                "imageUrl"@,
            ) ==> lookup(left, key) == kept
        }),
{
    lemma_names();
    reveal_strlit("image");
    reveal_strlit("input_image");
    reveal_strlit("inputImage");
    assert("image"@.len() == 5);
    assert("input_image"@.len() == 11);
    assert("inputImage"@.len() == 10);
    let inner = scrubbed_fields(fields);
    lemma_scrubbed_lookup(fields, key);
    lemma_scrubbed_lookup(fields, "type"@);
    lemma_scrubbed_lookup(fields, "data"@);
    lemma_scrubbed_lookup(fields, "image_url"@);
    lemma_scrubbed_lookup(fields, "imageUrl"@);
    let a = without_data(inner);
    let b = without_url(a, "image_url"@);
    let c = without_url(b, "imageUrl"@);
    lemma_omitting_lookup(inner, "data"@, "type"@);
    lemma_omitting_lookup(inner, "data"@, "image_url"@);
    lemma_omitting_lookup(inner, "data"@, "imageUrl"@);
    lemma_omitting_lookup(a, "image_url"@, "type"@);
    lemma_omitting_lookup(a, "image_url"@, "imageUrl"@);
    lemma_noted(inner, "data"@);
    lemma_noted(a, "image_url"@);
    lemma_noted(b, "imageUrl"@);
    if key != "dataOmitted"@ {
        lemma_omitting_lookup(inner, "data"@, key);
        lemma_omitting_lookup(a, "image_url"@, key);
        lemma_omitting_lookup(b, "imageUrl"@, key);
    }
}

/// What is published of an object has all of its fields but the data of
/// pictures, which are noted as left out; each value is published in turn.
pub proof fn an_object_is_published_without_picture_data(
    event: Json,
    public: Json,
    key: Seq<char>,
    inner: Json,
    shown: Json,
)
    requires
        call_ensures(without_image_data, (&event,), public),
        call_ensures(without_image_data, (&inner,), shown),
        event@ is Object,
    ensures
        public@ is Object,
        key != "dataOmitted"@ && leaves_out(event@, key) ==> public@.get(key) is None,
        key != "dataOmitted"@ && !leaves_out(event@, key) && event@.get(key) == Some(inner@)
            ==> public@.get(key) == Some(shown@),
        event@.get(key) is None && key != "dataOmitted"@ ==> public@.get(key) is None,
        leaves_out(event@, "data"@) || leaves_out(event@, "image_url"@) || leaves_out(
            event@,
            "imageUrl"@,
        ) ==> public@.get("dataOmitted"@) == Some(JsonView::Bool(true)),
        !leaves_out(event@, "data"@) && !leaves_out(event@, "image_url"@) && !leaves_out(
            event@,
            "imageUrl"@,
        ) ==> (event@.get(key) == Some(inner@) ==> public@.get(key) == Some(shown@)) && (event@.get(
            key,
        ) is None ==> public@.get(key) is None),
{
    lemma_left_out(event@->Object_0, key);
}

/// What is published of a list has all of its items, each published in turn;
/// what is neither an object nor a list is published as it is.
pub proof fn a_list_is_published_item_by_item(
    event: Json,
    public: Json,
    items: Seq<JsonView>,
    i: int,
    inner: Json,
    shown: Json,
)
    requires
        call_ensures(without_image_data, (&event,), public),
        call_ensures(without_image_data, (&inner,), shown),
    ensures
        event@ == JsonView::Array(items) ==> (public@ matches JsonView::Array(list) && list.len()
            == items.len() && (0 <= i < items.len() && items[i] == inner@ ==> list[i] == shown@)),
        !(event@ is Object) && !(event@ is Array) ==> public@ == event@,
{
    lemma_scrubbed_items(items);
}

/// A picture goes along with a prompt by the extension of its file, in capitals
/// or not; a file with another extension does not.
pub proof fn the_extension_gives_the_media_type(extension: &str, mime: Option<&'static str>)
    requires
        call_ensures(extension_type, (extension,), mime),
    ensures
        lowered(extension@) == "png"@ ==> opt_str(mime) == Some("image/png"@),
        lowered(extension@) == "jpg"@ || lowered(extension@) == "jpeg"@ ==> opt_str(mime) == Some(
            "image/jpeg"@,
        ),
        lowered(extension@) == "gif"@ ==> opt_str(mime) == Some("image/gif"@),
        lowered(extension@) == "webp"@ ==> opt_str(mime) == Some("image/webp"@),
        lowered(extension@) != "png"@ && lowered(extension@) != "jpg"@ && lowered(extension@)
            != "jpeg"@ && lowered(extension@) != "gif"@ && lowered(extension@) != "webp"@
            ==> mime is None,
{
    reveal_strlit("png");
    reveal_strlit("jpg");
    reveal_strlit("jpeg");
    reveal_strlit("gif");
    reveal_strlit("webp");
    assert("png"@.len() == 3);
    assert("jpg"@.len() == 3);
    assert("jpeg"@.len() == 4);
    assert("gif"@.len() == 3);
    assert("webp"@.len() == 4);
    assert("png"@[0] == 'p');
    assert("jpg"@[0] == 'j');
    assert("gif"@[0] == 'g');
    assert("jpeg"@[0] == 'j');
    assert("webp"@[0] == 'w');
}

/// A picture of at most 5 MiB goes along with its media type and its bytes in
/// Base64; a larger one does not.
pub proof fn a_picture_goes_along_whole(
    mime: &str,
    bytes: Vec<u8>,
    image: Option<Json>,
    other: Seq<char>,
)
    requires
        call_ensures(inline_image, (mime, &bytes), image),
    ensures
        image is Some <==> bytes@.len() <= 5_242_880,
        image matches Some(image) ==> {
            &&& says(image@, "type"@, "image"@)
            &&& says(image@, "mimeType"@, mime@)
            &&& says(image@, "data"@, base64_of(bytes@))
            &&& other != "type"@ && other != "mimeType"@ && other != "data"@ ==> image@.get(other)
                is None
        },
{
    broadcast use lemma_get_set;

    reveal_strlit("type");
    reveal_strlit("mimeType");
    reveal_strlit("data");
    assert("type"@.len() == 4);
    assert("mimeType"@.len() == 8);
    assert("data"@.len() == 4);
    assert("type"@[0] == 't');
    assert("data"@[0] == 'd');
    assert(empty_object().get(other) is None);
    let a = empty_object().set("type"@, JsonView::Text("image"@));
    assert(a is Object);
    let b = a.set("mimeType"@, JsonView::Text(mime@));
    assert(b is Object);
}

/// The six bits that a character of Base64 stands for.
pub open spec fn six_bits(c: char) -> int {
    if 'A' <= c <= 'Z' {
        c as int - 'A' as int
    } else if 'a' <= c <= 'z' {
        c as int - 'a' as int + 26
    } else if '0' <= c <= '9' {
        c as int - '0' as int + 52
    } else if c == '+' {
        62
    } else {
        63
    }
}

proof fn lemma_six_bits(n: int)
    requires
        0 <= n < 64,
    ensures
        six_bits(sextet_char(n)) == n,
        sextet_char(n) != '=',
{
}

proof fn lemma_bits(a: int, b: int, c: int, d: int)
    requires
        0 <= a < 256,
        0 <= b < 256,
        0 <= c < 256,
        0 <= d < 256,
    ensures
        262_144 * (((256 * a + b) / 1024) % 64) + 4_096 * (((256 * a + b) / 16) % 64) + 64 * (((256
            * b + c) / 64) % 64) + ((256 * c + d) / 256) % 64 == 65_536 * a + 256 * b + c,
        0 <= ((256 * a + b) / 1024) % 64 < 64,
        0 <= ((256 * a + b) / 16) % 64 < 64,
        0 <= ((256 * b + c) / 64) % 64 < 64,
        0 <= ((256 * c + d) / 256) % 64 < 64,
{
    assert((256 * a + b) / 1024 == a / 4);
    assert((256 * a + b) / 16 == 16 * a + b / 16);
    assert((16 * a + b / 16) % 64 == 16 * (a % 4) + b / 16);
    assert((256 * b + c) / 64 == 4 * b + c / 64);
    assert((4 * b + c / 64) % 64 == 4 * (b % 16) + c / 64);
    assert((256 * c + d) / 256 == c);
}

/// Each three bytes of a picture are four characters of its Base64, which stand
/// for the same bits; what is left over is filled up to four characters.
pub proof fn base64_keeps_every_byte(bytes: Seq<u8>, k: int)
    requires
        0 <= k,
        3 * k + 2 < bytes.len(),
    ensures
        ({
            let text = base64_of(bytes);
            &&& 4 * k + 3 < text.len()
            &&& 262_144 * six_bits(text[4 * k]) + 4_096 * six_bits(text[4 * k + 1]) + 64 * six_bits(
                text[4 * k + 2],
            ) + six_bits(text[4 * k + 3]) == 65_536 * bytes[3 * k] + 256 * bytes[3 * k + 1]
                + bytes[3 * k + 2]
        }),
{
    let a = bytes[3 * k] as int;
    let b = bytes[3 * k + 1] as int;
    let c = bytes[3 * k + 2] as int;
    assert((4 * k) / 4 == k && (4 * k) % 4 == 0);
    assert((4 * k + 1) / 4 == k && (4 * k + 1) % 4 == 1);
    assert((4 * k + 2) / 4 == k && (4 * k + 2) % 4 == 2);
    assert((4 * k + 3) / 4 == k && (4 * k + 3) % 4 == 3);
    let d = byte_at(bytes, 3 * k + 3);
    assert(sextet(bytes, 4 * k) == ((256 * a + b) / 1024) % 64);
    assert(sextet(bytes, 4 * k + 1) == ((256 * a + b) / 16) % 64);
    assert(sextet(bytes, 4 * k + 2) == ((256 * b + c) / 64) % 64);
    assert(sextet(bytes, 4 * k + 3) == ((256 * c + d) / 256) % 64);
    lemma_bits(a, b, c, d);
    lemma_six_bits(sextet(bytes, 4 * k));
    lemma_six_bits(sextet(bytes, 4 * k + 1));
    lemma_six_bits(sextet(bytes, 4 * k + 2));
    lemma_six_bits(sextet(bytes, 4 * k + 3));
}

} // verus!
