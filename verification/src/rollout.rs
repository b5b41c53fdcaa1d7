//! The images in a native rollout: a file to which an agent appends one JSON
//! record a line, tool outputs among them. The file is followed as it grows.

use vstd::prelude::*;
use vstd::slice::slice_subrange;

use crate::file_names::{is_absolute, path_extension};
#[allow(unused_imports)]
use crate::file_names::{has_plain_extension, may_be_absolute, stands_behind_dot};
use crate::json::{text_is, Json, JsonView};
#[allow(unused_imports)]
use crate::json::opt_str;
#[allow(unused_imports)]
use crate::lists::{joined, lemma_joined_concat, lemma_joined_next};
use crate::proto::{no_events, push_events, AgentEvent, ErrorView, EventView, HarnessError};
#[allow(unused_imports)]
use crate::proto::events as event_views;
use crate::tool_images;
#[allow(unused_imports)]
use crate::tool_images::image_events;
use crate::wire;
#[allow(unused_imports)]
use crate::wire::parsed_bytes;

verus! {

/// The most bytes that are read at once.
pub const MAX_READ: u64 = 67_108_864;

/// The most bytes that a line may have.
pub const MAX_LINE: usize = 41_943_040;

/// The byte that ends a line.
pub const LINE_END: u8 = 10;

/// How far a rollout was read, and the beginning of a line whose end was not
/// read yet.
pub struct RolloutView {
    pub path: Seq<char>,
    pub offset: u64,
    pub pending: Seq<u8>,
}

/// The images of a record: those in the output of a tool.
pub open spec fn images_in(record: JsonView) -> Seq<EventView> {
    let payload = record.at("payload"@);
    if record.at("type"@).is_text("response_item"@) && (payload.at("type"@).is_text(
        "custom_tool_call_output"@,
    ) || payload.at("type"@).is_text("function_call_output"@)) {
        match payload.at("call_id"@).as_text() {
            Some(id) => image_events(id, payload.at("output"@)),
            None => Seq::empty(),
        }
    } else {
        Seq::empty()
    }
}

/// The images of a line. A line that is no JSON has none.
pub open spec fn line_images(line: Seq<u8>) -> Seq<EventView> {
    if line.len() == 0 {
        Seq::empty()
    } else {
        match parsed_bytes(line) {
            Some(record) => images_in(record),
            None => Seq::empty(),
        }
    }
}

/// The parts of some bytes between the ends of lines.
pub open spec fn pieces(bytes: Seq<u8>) -> Seq<Seq<u8>>
    decreases bytes.len(),
{
    if bytes.len() == 0 {
        seq![Seq::empty()]
    } else {
        let before = pieces(bytes.drop_last());
        if bytes.last() == LINE_END {
            before.push(Seq::empty())
        } else {
            before.drop_last().push(before.last().push(bytes.last()))
        }
    }
}

/// Whether every line keeps to the limit.
pub open spec fn all_short(lines: Seq<Seq<u8>>) -> bool {
    forall|i: int| 0 <= i < lines.len() ==> (#[trigger] lines[i]).len() <= MAX_LINE
}

/// The images of some lines, in order.
pub open spec fn images_of(lines: Seq<Seq<u8>>) -> Seq<EventView> {
    joined(lines.map_values(|line: Seq<u8>| line_images(line)))
}

/// How many of the bytes are whole lines: those up to the last end of a line.
pub open spec fn whole(bytes: Seq<u8>) -> int
    decreases bytes.len(),
{
    if bytes.len() == 0 {
        0
    } else if bytes.last() == LINE_END {
        bytes.len() as int
    } else {
        whole(bytes.drop_last())
    }
}

/// The error of a line beyond the limit.
pub open spec fn too_long() -> ErrorView {
    ErrorView::Io("Codex rollout item exceeds the image limit"@)
}

/// How far a rollout was read after some bytes more. The count starts again at
/// 0 after the largest number.
pub open spec fn advanced(offset: u64, more: nat) -> u64 {
    ((offset + more) % 0x1_0000_0000_0000_0000) as u64
}

/// What some more bytes make of the beginning of a line: what is left of them,
/// and the images of the lines that they complete.
pub open spec fn followed(pending: Seq<u8>, more: Seq<u8>) -> (
    Seq<u8>,
    Result<Seq<EventView>, ErrorView>,
) {
    let all = pending + more;
    let lines = pieces(all.take(whole(all)));
    let rest = all.skip(whole(all));
    if rest.len() > MAX_LINE {
        (Seq::empty(), Err(too_long()))
    } else if !all_short(lines) {
        (rest, Err(too_long()))
    } else {
        (rest, Ok(images_of(lines)))
    }
}

/// A rollout that is followed from its start, or from where it ends now.
pub open spec fn begun(path: Seq<char>, resumed: bool, length: u64) -> RolloutView {
    RolloutView {
        path,
        offset: if resumed {
            length
        } else {
            0
        },
        pending: Seq::empty(),
    }
}

/// Whether a path can be one of a rollout, by whether it is absolute and by its
/// extension.
pub open spec fn is_rollout(absolute: bool, extension: Option<Seq<char>>) -> bool {
    absolute && extension == Some("jsonl"@)
}

/// A rollout whose length was looked at. One that is shorter than what was read
/// of it is another file, and is read from its start.
pub open spec fn located(r: RolloutView, length: u64) -> RolloutView {
    if length < r.offset {
        RolloutView { offset: 0, pending: Seq::empty(), ..r }
    } else {
        r
    }
}

/// A rollout that is followed.
pub struct RolloutImages {
    pub path: String,
    pub offset: u64,
    pub pending: Vec<u8>,
}

impl View for RolloutImages {
    type V = RolloutView;

    open spec fn view(&self) -> RolloutView {
        RolloutView { path: self.path@, offset: self.offset, pending: self.pending@ }
    }
}

/// The images of a record.
pub fn record_images(record: &Json) -> (found: Vec<AgentEvent>)
    ensures
        event_views(found@) == images_in(record@),
{
    if !record.at("type").is_text("response_item") {
        return no_events();
    }
    let payload = record.at("payload");
    let kind = payload.at("type");
    if !kind.is_text("custom_tool_call_output") && !kind.is_text("function_call_output") {
        return no_events();
    }
    match payload.at("call_id").as_text() {
        Some(id) => tool_images::events(id, payload.at("output")),
        None => no_events(),
    }
}

/// The images of a line.
fn read_line(line: &[u8]) -> (found: Vec<AgentEvent>)
    ensures
        event_views(found@) == line_images(line@),
{
    if line.len() == 0 {
        return no_events();
    }
    match wire::parse_bytes(line) {
        Some(record) => record_images(&record),
        None => no_events(),
    }
}

/// The part of some bytes that a range names.
pub open spec fn part(bytes: Seq<u8>, range: (usize, usize)) -> Seq<u8> {
    bytes.subrange(range.0 as int, range.1 as int)
}

/// The ranges of the parts of some bytes between the ends of lines.
fn ranges(bytes: &[u8]) -> (list: Vec<(usize, usize)>)
    ensures
        forall|i: int|
            0 <= i < list@.len() ==> (#[trigger] list@[i]).0 <= list@[i].1 <= bytes@.len(),
        list@.map_values(|range: (usize, usize)| part(bytes@, range)) == pieces(bytes@),
{
    let mut list: Vec<(usize, usize)> = Vec::new();
    let mut start: usize = 0;
    let mut i: usize = 0;
    let ghost named = |range: (usize, usize)| part(bytes@, range);
    proof {
        assert(bytes@.take(0) =~= Seq::<u8>::empty());
        assert(list@.map_values(named).push(bytes@.subrange(0, 0)) =~= seq![Seq::<u8>::empty()]);
    }
    while i < bytes.len()
        invariant
            start <= i <= bytes@.len(),
            named == (|range: (usize, usize)| part(bytes@, range)),
            forall|k: int|
                0 <= k < list@.len() ==> (#[trigger] list@[k]).0 <= list@[k].1 <= bytes@.len(),
            pieces(bytes@.take(i as int)) == list@.map_values(named).push(
                bytes@.subrange(start as int, i as int),
            ),
        decreases bytes@.len() - i,
    {
        let ghost before = list@;
        let ghost from = start as int;
        proof {
            assert(bytes@.take(i + 1).drop_last() =~= bytes@.take(i as int));
            assert(bytes@.take(i + 1).last() == bytes@[i as int]);
        }
        if bytes[i] == LINE_END {
            list.push((start, i));
            start = i + 1;
            proof {
                assert(list@.map_values(named) =~= before.map_values(named).push(
                    bytes@.subrange(from, i as int),
                ));
                assert(bytes@.subrange(i + 1, i + 1) =~= Seq::<u8>::empty());
            }
        } else {
            proof {
                let parts = before.map_values(named);
                let open = bytes@.subrange(start as int, i as int);
                assert(parts.push(open).drop_last() =~= parts);
                assert(bytes@.subrange(start as int, i + 1) =~= open.push(bytes@[i as int]));
            }
        }
        i = i + 1;
    }
    let ghost before = list@;
    list.push((start, i));
    proof {
        assert(bytes@.take(i as int) =~= bytes@);
        assert(list@.map_values(named) =~= before.map_values(named).push(
            bytes@.subrange(start as int, i as int),
        ));
    }
    list
}

/// How many of the bytes are whole lines.
fn whole_lines(bytes: &Vec<u8>) -> (count: usize)
    ensures
        count == whole(bytes@),
        count <= bytes@.len(),
{
    let mut i: usize = bytes.len();
    proof {
        assert(bytes@.take(i as int) =~= bytes@);
    }
    while i > 0
        invariant
            i <= bytes@.len(),
            whole(bytes@) == whole(bytes@.take(i as int)),
        decreases i,
    {
        proof {
            assert(bytes@.take(i as int).drop_last() =~= bytes@.take(i - 1));
            assert(bytes@.take(i as int).last() == bytes@[i - 1]);
        }
        if bytes[i - 1] == LINE_END {
            return i;
        }
        i = i - 1;
    }
    0
}

/// The error of a line beyond the limit.
fn too_long_error() -> (error: HarnessError)
    ensures
        error@ == too_long(),
{
    HarnessError::Io("Codex rollout item exceeds the image limit".to_owned())
}

/// What came of following a rollout, as a mathematical value.
pub open spec fn images_view(found: Result<Vec<AgentEvent>, HarnessError>) -> Result<
    Seq<EventView>,
    ErrorView,
> {
    match found {
        Ok(list) => Ok(event_views(list@)),
        Err(error) => Err(error@),
    }
}

/// The images of some whole lines.
fn read_lines(bytes: &[u8]) -> (found: Result<Vec<AgentEvent>, HarnessError>)
    ensures
        images_view(found) == if all_short(pieces(bytes@)) {
            Ok(images_of(pieces(bytes@)))
        } else {
            Err(too_long())
        },
{
    let list = ranges(bytes);
    let ghost lines = pieces(bytes@);
    let ghost images = lines.map_values(|line: Seq<u8>| line_images(line));
    let mut found = no_events();
    let mut i: usize = 0;
    proof {
        assert(images.take(0) =~= Seq::<Seq<EventView>>::empty());
        assert(lines.len() == list@.len());
    }
    while i < list.len()
        invariant
            i <= list@.len(),
            list@.len() == lines.len(),
            lines == pieces(bytes@),
            lines == list@.map_values(|range: (usize, usize)| part(bytes@, range)),
            images == lines.map_values(|line: Seq<u8>| line_images(line)),
            forall|k: int|
                0 <= k < list@.len() ==> (#[trigger] list@[k]).0 <= list@[k].1 <= bytes@.len(),
            forall|k: int| 0 <= k < i ==> (#[trigger] lines[k]).len() <= MAX_LINE,
            event_views(found@) == joined(images.take(i as int)),
        decreases list@.len() - i,
    {
        let (start, end) = list[i];
        proof {
            assert(list@[i as int].0 <= list@[i as int].1 <= bytes@.len());
            assert(lines[i as int] == part(bytes@, list@[i as int]));
            lemma_joined_next(images, i as int);
        }
        let line = slice_subrange(bytes, start, end);
        if line.len() > MAX_LINE {
            proof {
                assert(lines[i as int].len() > MAX_LINE);
            }
            return Err(too_long_error());
        }
        push_events(&mut found, read_line(line));
        i = i + 1;
    }
    proof {
        assert(images.take(i as int) =~= images);
    }
    Ok(found)
}

impl RolloutImages {
    /// Follows a rollout, if the path can be one of a rollout, by whether it is
    /// absolute and by its extension. The length is that of the file now.
    pub fn follow(
        path: &str,
        absolute: bool,
        extension: Option<&str>,
        resumed: bool,
        length: u64,
    ) -> (rollout: Option<Self>)
        ensures
            match rollout {
                Some(rollout) => is_rollout(absolute, opt_str(extension)) && rollout@ == begun(
                    path@,
                    resumed,
                    length,
                ),
                None => !is_rollout(absolute, opt_str(extension)),
            },
    {
        if !absolute || !text_is(extension, "jsonl") {
            return None;
        }
        let pending: Vec<u8> = Vec::new();
        let offset: u64 = if resumed {
            length
        } else {
            0
        };
        Some(RolloutImages { path: path.to_owned(), offset, pending })
    }

    /// Follows a rollout, if the path can be one of a rollout on this machine.
    /// The length is that of the file now.
    pub fn new(path: &str, resumed: bool, length: u64) -> (rollout: Option<Self>)
        ensures
            match rollout {
                Some(rollout) => {
                    &&& rollout@ == begun(path@, resumed, length)
                    &&& may_be_absolute(path@)
                    &&& stands_behind_dot(path@, "jsonl"@)
                },
                None => true,
            },
            forall|extension: Seq<char>| #[trigger]
                has_plain_extension(path@, extension) && extension != "jsonl"@ ==> rollout is None,
    {
        let extension = path_extension(path);
        let named = match &extension {
            Some(extension) => Some(extension.as_str()),
            None => None,
        };
        Self::follow(path, is_absolute(path), named, resumed, length)
    }

    /// Takes in the length of the file, and tells where to read on.
    pub fn locate(&mut self, length: u64) -> (offset: u64)
        ensures
            final(self)@ == located(old(self)@, length),
            offset == final(self)@.offset,
    {
        if length < self.offset {
            self.offset = 0;
            self.pending = Vec::new();
            proof {
                assert(self@.pending =~= Seq::<u8>::empty());
            }
        }
        self.offset
    }

    /// Takes in the bytes that were read on, and gives the images of the lines
    /// that they complete.
    pub fn take_appended(&mut self, appended: Vec<u8>) -> (found: Result<
        Vec<AgentEvent>,
        HarnessError,
    >)
        ensures
            final(self)@ == (RolloutView {
                path: old(self)@.path,
                offset: advanced(old(self)@.offset, appended@.len()),
                pending: followed(old(self)@.pending, appended@).0,
            }),
            images_view(found) == followed(old(self)@.pending, appended@).1,
    {
        let ghost all = self.pending@ + appended@;
        self.offset = self.offset.wrapping_add(appended.len() as u64);
        let mut appended = appended;
        self.pending.append(&mut appended);
        let count = whole_lines(&self.pending);
        let rest = self.pending.split_off(count);
        proof {
            assert(self.pending@ =~= all.take(count as int));
            assert(rest@ =~= all.skip(count as int));
        }
        if rest.len() > MAX_LINE {
            self.pending = Vec::new();
            proof {
                assert(self.pending@ =~= Seq::<u8>::empty());
            }
            return Err(too_long_error());
        }
        let found = read_lines(self.pending.as_slice());
        self.pending = rest;
        found
    }
}

proof fn lemma_pieces_concat(x: Seq<u8>, y: Seq<u8>)
    ensures
        pieces(x).len() > 0,
        pieces(y).len() > 0,
        pieces(x + y) == pieces(x).drop_last() + seq![pieces(x).last() + pieces(y)[0]] + pieces(
            y,
        ).drop_first(),
    decreases x.len() + y.len(),
{
    let a = pieces(x);
    if y.len() == 0 {
        if x.len() > 0 {
            lemma_pieces_concat(x.drop_last(), y);
        }
        assert(x + y =~= x);
        assert(a.last() + Seq::<u8>::empty() =~= a.last());
        assert(a =~= a.drop_last() + seq![a.last()] + seq![Seq::<u8>::empty()].drop_first());
    } else {
        let less = y.drop_last();
        let b = pieces(less);
        lemma_pieces_concat(x, less);
        assert((x + y).drop_last() =~= x + less);
        assert((x + y).last() == y.last());
        let before = pieces(x + less);
        if y.last() == LINE_END {
            assert(b.push(Seq::<u8>::empty()).drop_first() =~= b.drop_first().push(Seq::empty()));
            assert(pieces(x + y) =~= a.drop_last() + seq![a.last() + pieces(y)[0]] + pieces(
                y,
            ).drop_first());
        } else if b.len() == 1 {
            let open = b.last().push(y.last());
            assert(pieces(y) =~= seq![open]);
            assert(before =~= a.drop_last().push(a.last() + b[0]));
            assert(before.drop_last() =~= a.drop_last());
            assert(a.last() + open =~= (a.last() + b[0]).push(y.last()));
            assert(pieces(x + y) =~= a.drop_last() + seq![a.last() + pieces(y)[0]] + pieces(
                y,
            ).drop_first());
        } else {
            assert(before.last() == b.last());
            assert(pieces(y)[0] == b[0]);
            assert(pieces(x + y) =~= a.drop_last() + seq![a.last() + pieces(y)[0]] + pieces(
                y,
            ).drop_first());
        }
    }
}

proof fn lemma_whole(bytes: Seq<u8>)
    ensures
        0 <= whole(bytes) <= bytes.len(),
        whole(bytes.take(whole(bytes))) == whole(bytes),
        pieces(bytes.take(whole(bytes))).last() == Seq::<u8>::empty(),
        whole(bytes.skip(whole(bytes))) == 0,
    decreases bytes.len(),
{
    if bytes.len() == 0 {
        assert(bytes.take(0) =~= bytes);
        assert(bytes.skip(0) =~= bytes);
    } else if bytes.last() == LINE_END {
        assert(bytes.take(bytes.len() as int) =~= bytes);
    } else {
        let before = bytes.drop_last();
        lemma_whole(before);
        let count = whole(bytes);
        assert(bytes.take(count) =~= before.take(count));
        assert(bytes.skip(count).drop_last() =~= before.skip(count));
    }
}

proof fn lemma_whole_concat(x: Seq<u8>, y: Seq<u8>)
    ensures
        whole(y) > 0 ==> whole(x + y) == x.len() + whole(y),
        whole(y) == 0 ==> whole(x + y) == whole(x),
        whole(y) >= 0,
    decreases y.len(),
{
    if y.len() == 0 {
        assert(x + y =~= x);
    } else {
        lemma_whole_concat(x, y.drop_last());
        assert((x + y).drop_last() =~= x + y.drop_last());
    }
}

proof fn lemma_one_piece(bytes: Seq<u8>)
    requires
        whole(bytes) == 0,
    ensures
        pieces(bytes) == seq![bytes],
    decreases bytes.len(),
{
    if bytes.len() > 0 {
        let before = bytes.drop_last();
        lemma_one_piece(before);
        assert(before.push(bytes.last()) =~= bytes);
        assert(pieces(bytes) =~= seq![bytes]);
    } else {
        assert(bytes =~= Seq::<u8>::empty());
    }
}

proof fn lemma_images_concat(a: Seq<Seq<u8>>, b: Seq<Seq<u8>>)
    ensures
        images_of(a + b) == images_of(a) + images_of(b),
{
    let named = |line: Seq<u8>| line_images(line);
    assert((a + b).map_values(named) =~= a.map_values(named) + b.map_values(named));
    lemma_joined_concat(a.map_values(named), b.map_values(named));
}

proof fn lemma_last_line_is_empty(bytes: Seq<u8>)
    ensures
        ({
            let lines = pieces(bytes.take(whole(bytes)));
            &&& lines.len() > 0
            &&& images_of(lines.drop_last()) == images_of(lines)
            &&& all_short(lines.drop_last()) == all_short(lines)
        }),
{
    lemma_whole(bytes);
    let some = bytes.take(whole(bytes));
    let lines = pieces(some);
    lemma_pieces_concat(some, Seq::empty());
    assert(lines =~= lines.drop_last() + seq![lines.last()]);
    lemma_images_concat(lines.drop_last(), seq![lines.last()]);
    let named = |line: Seq<u8>| line_images(line);
    let last = seq![lines.last()].map_values(named);
    assert(last =~= seq![Seq::<EventView>::empty()]);
    lemma_joined_next(last, 0);
    assert(last.take(1) =~= last);
    assert(last.take(0) =~= Seq::<Seq<EventView>>::empty());
    assert(images_of(seq![lines.last()]) =~= Seq::<EventView>::empty());
    assert(images_of(lines.drop_last()) + Seq::<EventView>::empty() =~= images_of(
        lines.drop_last(),
    ));
    assert(forall|i: int|
        0 <= i < lines.len() - 1 ==> #[trigger] lines.drop_last()[i] == lines[i]);
    if all_short(lines.drop_last()) {
        assert forall|i: int| 0 <= i < lines.len() implies (#[trigger] lines[i]).len()
            <= MAX_LINE by {
            if i < lines.len() - 1 {
                assert(lines.drop_last()[i] == lines[i]);
            }
        }
    } else {
        let i = choose|i: int|
            0 <= i < lines.len() - 1 && (#[trigger] lines.drop_last()[i]).len() > MAX_LINE;
        assert(lines[i].len() > MAX_LINE);
    }
}

/// How a rollout is cut up by the times at which it is read does not matter:
/// read in two portions or in one, it gives the same images, each once, and
/// leaves the same beginning of a line; and it fails in the one way if it fails
/// in the other.
pub proof fn portions_do_not_matter(pending: Seq<u8>, first: Seq<u8>, second: Seq<u8>)
    ensures
        ({
            let (left, found) = followed(pending, first);
            let (rest, more) = followed(left, second);
            let (end, all) = followed(pending, first + second);
            &&& all is Ok <==> found is Ok && more is Ok
            &&& found is Ok && more is Ok ==> end == rest && all->Ok_0 == found->Ok_0 + more->Ok_0
        }),
{
    let a = pending + first;
    let w = whole(a);
    let c = a.take(w);
    let left = a.skip(w);
    let b = left + second;
    let v = whole(b);
    let d = b.take(v);
    let rest = b.skip(v);
    let all = pending + (first + second);
    lemma_whole(a);
    lemma_whole(b);
    assert(all =~= c + b);
    lemma_whole_concat(c, b);
    assert(whole(all) == w + v);
    assert(all.take(w + v) =~= c + d);
    assert(all.skip(w + v) =~= rest);
    lemma_pieces_concat(c, d);
    lemma_last_line_is_empty(a);
    let lines = pieces(c);
    let more = pieces(d);
    assert(Seq::<u8>::empty() + more[0] =~= more[0]);
    assert(pieces(c + d) =~= lines.drop_last() + more);
    lemma_images_concat(lines.drop_last(), more);
    let both = lines.drop_last() + more;
    if all_short(both) {
        assert forall|i: int| 0 <= i < lines.drop_last().len() implies (
        #[trigger] lines.drop_last()[i]).len() <= MAX_LINE by {
            assert(both[i] == lines.drop_last()[i]);
        }
        assert forall|i: int| 0 <= i < more.len() implies (#[trigger] more[i]).len()
            <= MAX_LINE by {
            assert(both[lines.len() - 1 + i] == more[i]);
        }
    }
    if v > 0 {
        // The line that was left open is the start of the first line read next.
        lemma_whole(left);
        lemma_one_piece(left);
        let tail = d.skip(left.len() as int);
        if v < left.len() {
            assert(whole(left) == 0);
            lemma_whole_concat(left, second);
            assert(false);
        }
        assert(d =~= left + tail);
        lemma_pieces_concat(left, tail);
        assert(seq![left].last() == left);
        assert(more[0] == left + pieces(tail)[0]);
    } else {
        lemma_whole_concat(left, second);
        assert(rest =~= b);
    }
    if followed(pending, first).1 is Ok {
        assert(followed(pending, first).0 == left);
    }
}

} // verus!
