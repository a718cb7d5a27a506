//! The streamed answer of the assistant.
//!
//! The answer arrives in chunks of server-sent events. Each event carries pieces
//! of the answer, in the order in which they are to be put together.

use crate::json::collect_texts;
use crate::json::items_at;
use crate::json::member;
use crate::json::members_are_found_by_name;
use crate::json::parse_json;
use crate::json::path_names;
use crate::json::paths_lead_from_member_to_member;
use crate::json::text_at;
use crate::json::text_tree;
use crate::json::texts_at;
use crate::json::Json;
use crate::json::JsonView;
use crate::text::chars_of;
use crate::text::each_prefix_is_taken_off;
use crate::text::find;
use crate::text::has_prefix;
use crate::text::lemma_find_bounds;
use crate::text::lines;
use crate::text::lines_of;
use crate::text::pieces;
use crate::text::prefixes_stand_in_front;
use crate::text::replace_each;
use crate::text::replaced;
use crate::text::same_chars;
use crate::text::split;
use crate::text::split_at_each;
use crate::text::starts_with;
use crate::text::string_of;
use crate::text::strip_prefixes;
use crate::text::texts;
use crate::text::texts_are_cut_at_each_occurrence;
use crate::text::texts_without_the_pattern_stay_whole;
use crate::text::trim;
use crate::text::trimmed;
use crate::text::trimming_takes_off_white_space;
use crate::text::white_space;
use crate::text::without_prefixes;
use crate::utf8::decode;
use vstd::prelude::*;
use vstd::utf8::decode_utf8;
use vstd::utf8::valid_utf8;

verus! {

/// How many seconds the answer is listened to.
pub const STREAM_SECONDS: u64 = 30;

/// What a line with data starts with.
pub const DATA: &'static str = "data:";

/// The data that ends the answer.
pub const DONE: &'static str = "[DONE]";

/// What ends an event, and a paragraph.
pub const EMPTY_LINE: &'static str = "\n\n";

// ------------------------------------------------------------------ the events

/// What a part of the stream holds: pieces of the answer, and whether it ends
/// the answer.
#[derive(Debug)]
pub struct Heard {
    pub texts: Vec<String>,
    pub done: bool,
}

/// What a part of the stream holds, mathematically.
pub struct HeardView {
    pub texts: Seq<Seq<char>>,
    pub done: bool,
}

impl View for Heard {
    type V = HeardView;

    open spec fn view(&self) -> HeardView {
        HeardView { texts: texts(self.texts@), done: self.done }
    }
}

/// Nothing.
pub open spec fn silence() -> HeardView {
    HeardView { texts: seq![], done: false }
}

/// One part, then another. What follows the end of the answer is not heard.
pub open spec fn heard_in_turn(a: HeardView, b: HeardView) -> HeardView {
    if a.done {
        a
    } else {
        HeardView { texts: a.texts + b.texts, done: b.done }
    }
}

/// The pieces of the answer in an event: the texts of its content.
pub open spec fn event_pieces(event: JsonView) -> Seq<Seq<char>> {
    match items_at(event, seq!["delta"@, "content"@]) {
        Some(items) => texts_at(items, seq!["text"@, "value"@]),
        None => seq![],
    }
}

/// The data of a line.
pub open spec fn line_data(line: Seq<char>) -> Seq<char> {
    trimmed(without_prefixes(line, DATA@))
}

/// What a line holds. A line that carries no data, or data that cannot be read,
/// holds nothing.
pub open spec fn heard_in_line(line: Seq<char>) -> HeardView {
    if !starts_with(line, DATA@) {
        silence()
    } else if line_data(line) == DONE@ {
        HeardView { texts: seq![], done: true }
    } else {
        match text_tree(line_data(line)) {
            Some(event) => HeardView { texts: event_pieces(event), done: false },
            None => silence(),
        }
    }
}

/// What a sequence of lines holds.
pub open spec fn heard_in_lines(lines: Seq<Seq<char>>) -> HeardView
    decreases lines.len(),
{
    if lines.len() == 0 {
        silence()
    } else {
        heard_in_turn(heard_in_line(lines.first()), heard_in_lines(lines.drop_first()))
    }
}

/// What an event block holds.
pub open spec fn heard_in_block(block: Seq<char>) -> HeardView {
    heard_in_lines(lines(block))
}

/// What a sequence of event blocks holds. White space around a block does not
/// count.
pub open spec fn heard_in_blocks(blocks: Seq<Seq<char>>) -> HeardView
    decreases blocks.len(),
{
    if blocks.len() == 0 {
        silence()
    } else {
        heard_in_turn(
            heard_in_block(trimmed(blocks.first())),
            heard_in_blocks(blocks.drop_first()),
        )
    }
}

/// What a chunk holds: it is a text in UTF-8, made of event blocks. A chunk that
/// is no such text holds nothing.
pub open spec fn heard_in_chunk(chunk: Seq<u8>) -> HeardView {
    if valid_utf8(chunk) {
        heard_in_blocks(split(replaced(decode_utf8(chunk), "\r\n"@, "\n"@), EMPTY_LINE@))
    } else {
        silence()
    }
}

/// Reads the pieces of the answer in an event.
pub fn event_texts(event: &Json) -> (r: Vec<String>)
    ensures
        texts(r@) == event_pieces(event@),
{
    let content = ["delta", "content"];
    let value = ["text", "value"];
    assert(path_names(content@) =~= seq!["delta"@, "content"@]);
    assert(path_names(value@) =~= seq!["text"@, "value"@]);
    match event.items_along(&content) {
        Some(items) => collect_texts(items, &value),
        None => {
            let r: Vec<String> = Vec::new();
            assert(texts(r@) =~= seq![]);
            r
        },
    }
}

fn nothing() -> (r: Heard)
    ensures
        r@ == silence(),
{
    let r = Heard { texts: Vec::new(), done: false };
    assert(texts(r.texts@) =~= seq![]);
    r
}

/// One part, then another.
fn and_then_hear(a: Heard, b: Heard) -> (r: Heard)
    requires
        !a.done,
    ensures
        r@ == heard_in_turn(a@, b@),
{
    let mut all = a.texts;
    let mut more = b.texts;
    let ghost first = all@;
    let ghost second = more@;
    all.append(&mut more);
    assert(texts(all@) =~= texts(first) + texts(second));
    Heard { texts: all, done: b.done }
}

proof fn lemma_in_turn(a: HeardView, b: HeardView, c: HeardView)
    ensures
        heard_in_turn(silence(), a) == a,
        heard_in_turn(a, silence()) == a,
        heard_in_turn(heard_in_turn(a, b), c) == heard_in_turn(a, heard_in_turn(b, c)),
{
    assert(silence().texts + a.texts =~= a.texts);
    assert(a.texts + silence().texts =~= a.texts);
    assert((a.texts + b.texts) + c.texts =~= a.texts + (b.texts + c.texts));
}

fn hear_line(line: &[char]) -> (r: Heard)
    ensures
        r@ == heard_in_line(line@),
{
    proof {
        reveal_strlit("data:");
    }
    let data = chars_of(DATA);
    if !has_prefix(line, data.as_slice()) {
        return nothing();
    }
    let value = trim(strip_prefixes(line, data.as_slice()));
    assert(value@ == line_data(line@));
    if same_chars(value, chars_of(DONE).as_slice()) {
        let r = Heard { texts: Vec::new(), done: true };
        assert(texts(r.texts@) =~= seq![]);
        return r;
    }
    match parse_json(string_of(value).as_str()) {
        Some(event) => Heard { texts: event_texts(&event), done: false },
        None => nothing(),
    }
}

fn hear_block(block: &[char]) -> (r: Heard)
    ensures
        r@ == heard_in_block(block@),
{
    let all = lines_of(block);
    let ghost views = pieces(all@);
    let n: usize = all.len();
    let mut heard = nothing();
    let mut i: usize = 0;
    assert(views.skip(0) =~= views);
    proof {
        lemma_in_turn(heard_in_lines(views), silence(), silence());
    }
    while i < n
        invariant
            n == all@.len(),
            views == pieces(all@),
            views == lines(block@),
            i <= n,
            !heard.done,
            heard_in_turn(heard@, heard_in_lines(views.skip(i as int))) == heard_in_lines(views),
        decreases n - i,
    {
        let ghost rest = heard_in_lines(views.skip(i + 1));
        assert(views.skip(i as int).drop_first() =~= views.skip(i + 1));
        assert(views.skip(i as int).first() == all@[i as int]@);
        let next = hear_line(all[i]);
        proof {
            lemma_in_turn(heard@, next@, rest);
        }
        heard = and_then_hear(heard, next);
        if heard.done {
            return heard;
        }
        i += 1;
    }
    proof {
        lemma_in_turn(heard@, silence(), silence());
    }
    heard
}

/// Hears a line of the stream.
pub fn process_line(line: &str) -> (r: Heard)
    ensures
        r@ == heard_in_line(line@),
{
    hear_line(chars_of(line).as_slice())
}

/// Hears an event block of the stream, up to the line that ends the answer.
pub fn process_event_block(block: &str) -> (r: Heard)
    ensures
        r@ == heard_in_block(block@),
{
    hear_block(chars_of(block).as_slice())
}

/// Hears a chunk of the stream, up to the line that ends the answer.
pub fn process_chunk(chunk: &[u8]) -> (r: Heard)
    ensures
        r@ == heard_in_chunk(chunk@),
{
    let text = match decode(chunk) {
        Some(text) => text,
        None => {
            return nothing();
        },
    };
    proof {
        reveal_strlit("\r\n");
        reveal_strlit("\n\n");
    }
    let normal = replace_each(
        chars_of(text.as_str()).as_slice(),
        chars_of("\r\n").as_slice(),
        chars_of("\n").as_slice(),
    );
    let all = split_at_each(normal.as_slice(), chars_of(EMPTY_LINE).as_slice());
    let ghost views = pieces(all@);
    let n: usize = all.len();
    let mut heard = nothing();
    let mut i: usize = 0;
    assert(views.skip(0) =~= views);
    proof {
        lemma_in_turn(heard_in_blocks(views), silence(), silence());
    }
    while i < n
        invariant
            n == all@.len(),
            views == pieces(all@),
            heard_in_chunk(chunk@) == heard_in_blocks(views),
            i <= n,
            !heard.done,
            heard_in_turn(heard@, heard_in_blocks(views.skip(i as int))) == heard_in_blocks(views),
        decreases n - i,
    {
        let ghost rest = heard_in_blocks(views.skip(i + 1));
        assert(views.skip(i as int).drop_first() =~= views.skip(i + 1));
        assert(views.skip(i as int).first() == all@[i as int]@);
        let next = hear_block(trim(all[i]));
        proof {
            lemma_in_turn(heard@, next@, rest);
        }
        heard = and_then_hear(heard, next);
        if heard.done {
            return heard;
        }
        i += 1;
    }
    proof {
        lemma_in_turn(heard@, silence(), silence());
    }
    heard
}

// ------------------------------------------------------------------------ laws

/// Lines that follow one another are heard in turn.
pub proof fn lines_are_heard_in_turn(before: Seq<Seq<char>>, after: Seq<Seq<char>>)
    ensures
        heard_in_lines(before + after) == heard_in_turn(
            heard_in_lines(before),
            heard_in_lines(after),
        ),
    decreases before.len(),
{
    if before.len() == 0 {
        assert(before + after =~= after);
        lemma_in_turn(heard_in_lines(after), silence(), silence());
    } else {
        let rest = before.drop_first();
        lines_are_heard_in_turn(rest, after);
        assert((before + after).drop_first() =~= rest + after);
        lemma_in_turn(
            heard_in_line(before.first()),
            heard_in_lines(rest),
            heard_in_lines(after),
        );
    }
}

/// What follows the end of the answer is not heard.
pub proof fn nothing_is_heard_after_the_end(before: Seq<Seq<char>>, after: Seq<Seq<char>>)
    requires
        heard_in_lines(before).done,
    ensures
        heard_in_lines(before + after) == heard_in_lines(before),
{
    lines_are_heard_in_turn(before, after);
}

/// A line that carries no data changes nothing, wherever it stands.
pub proof fn lines_without_data_are_passed_over(
    before: Seq<Seq<char>>,
    line: Seq<char>,
    after: Seq<Seq<char>>,
)
    requires
        !starts_with(line, DATA@),
    ensures
        heard_in_lines(before + seq![line] + after) == heard_in_lines(before + after),
{
    let one = seq![line];
    assert(one.drop_first() =~= seq![]);
    assert(heard_in_lines(one.drop_first()) == silence());
    lemma_in_turn(silence(), silence(), silence());
    assert(heard_in_lines(one) == silence());
    lines_are_heard_in_turn(before + one, after);
    lines_are_heard_in_turn(before, one);
    lines_are_heard_in_turn(before, after);
    lemma_in_turn(heard_in_lines(before), silence(), silence());
}

/// Only the content of an event counts: two events with the same content give the
/// same pieces, whatever other members they have.
pub proof fn only_the_content_counts(
    a: JsonView,
    delta_a: JsonView,
    b: JsonView,
    delta_b: JsonView,
    items: Seq<JsonView>,
)
    requires
        member(a, "delta"@) == Some(delta_a),
        member(delta_a, "content"@) == Some(JsonView::Array(items)),
        member(b, "delta"@) == Some(delta_b),
        member(delta_b, "content"@) == Some(JsonView::Array(items)),
    ensures
        event_pieces(a) == event_pieces(b),
        items.len() == 0 ==> event_pieces(a) == Seq::<Seq<char>>::empty(),
{
    paths_lead_from_member_to_member(a, "delta"@, "content"@);
    paths_lead_from_member_to_member(b, "delta"@, "content"@);
    if items.len() == 0 {
        assert(event_pieces(a) =~= Seq::empty());
    }
}

/// Each item of the content adds the text at its `text.value` as one piece, as it
/// is and at its place, whatever other members the event, its `delta` and the item
/// have; an item without such a text adds nothing.
pub proof fn each_item_of_the_content_is_a_piece(
    a: JsonView,
    delta_a: JsonView,
    b: JsonView,
    delta_b: JsonView,
    items: Seq<JsonView>,
    item: JsonView,
)
    requires
        member(a, "delta"@) == Some(delta_a),
        member(delta_a, "content"@) == Some(JsonView::Array(items)),
        member(b, "delta"@) == Some(delta_b),
        member(delta_b, "content"@) == Some(JsonView::Array(items.push(item))),
    ensures
        ({
            let value = match member(item, "text"@) {
                Some(text) => member(text, "value"@),
                None => None,
            };
            match value {
                Some(JsonView::Text(t)) => event_pieces(b) == event_pieces(a).push(t),
                _ => event_pieces(b) == event_pieces(a),
            }
        }),
{
    let path = seq!["text"@, "value"@];
    let all = items.push(item);
    paths_lead_from_member_to_member(a, "delta"@, "content"@);
    paths_lead_from_member_to_member(b, "delta"@, "content"@);
    paths_lead_from_member_to_member(item, "text"@, "value"@);
    assert(all.drop_last() =~= items);
    match text_at(path)(item) {
        Some(t) => {
            assert(texts_at(all, path) =~= texts_at(items, path).push(t));
        },
        None => {
            assert(texts_at(all, path) =~= texts_at(items, path));
        },
    }
}

/// An event whose content is one item with a text gives exactly that text.
pub proof fn an_event_with_one_text_gives_that_text(
    event: JsonView,
    delta: JsonView,
    item: JsonView,
    text: JsonView,
    t: Seq<char>,
)
    requires
        member(event, "delta"@) == Some(delta),
        member(delta, "content"@) == Some(JsonView::Array(seq![item])),
        member(item, "text"@) == Some(text),
        member(text, "value"@) == Some(JsonView::Text(t)),
    ensures
        event_pieces(event) == seq![t],
{
    let nothing = Seq::<JsonView>::empty();
    let before = Seq::<(Seq<char>, JsonView)>::empty();
    let empty_delta = JsonView::Object(
        before + seq![("content"@, JsonView::Array(nothing))] + before,
    );
    let empty_event = JsonView::Object(before + seq![("delta"@, empty_delta)] + before);
    members_are_found_by_name(before, "content"@, JsonView::Array(nothing), before);
    members_are_found_by_name(before, "delta"@, empty_delta, before);
    only_the_content_counts(empty_event, empty_delta, empty_event, empty_delta, nothing);
    assert(nothing.push(item) =~= seq![item]);
    each_item_of_the_content_is_a_piece(
        empty_event,
        empty_delta,
        event,
        delta,
        nothing,
        item,
    );
    assert(Seq::<Seq<char>>::empty().push(t) =~= seq![t]);
}

/// An event without a list as its content gives no piece.
pub proof fn events_without_content_give_no_piece(event: JsonView)
    requires
        member(event, "delta"@) matches Some(delta) ==> !(member(delta, "content"@) matches Some(
            JsonView::Array(_),
        )),
    ensures
        event_pieces(event) == Seq::<Seq<char>>::empty(),
{
    paths_lead_from_member_to_member(event, "delta"@, "content"@);
}

/// A line is heard by its data: what stands behind `data:`, without the white space
/// around it. `[DONE]` ends the answer; a document gives the pieces of its event;
/// anything else gives nothing. The end of the answer gives no piece.
pub proof fn lines_are_heard_by_their_data(a: Seq<char>, data: Seq<char>, b: Seq<char>)
    requires
        forall|i: int| 0 <= i < a.len() ==> white_space(#[trigger] a[i]),
        forall|i: int| 0 <= i < b.len() ==> white_space(#[trigger] b[i]),
        data.len() > 0 ==> !white_space(data.first()) && !white_space(data.last()),
        forall|rest: Seq<char>| a + data + b != #[trigger] ("data:"@ + rest),
    ensures
        heard_in_line("data:"@ + (a + data + b)) == (HeardView {
            texts: match text_tree(data) {
                Some(event) if data != "[DONE]"@ => event_pieces(event),
                _ => seq![],
            },
            done: data == "[DONE]"@,
        }),
{
    reveal_strlit("data:");
    let s = a + data + b;
    each_prefix_is_taken_off(s, "data:"@);
    prefixes_stand_in_front("data:"@ + s, "data:"@);
    trimming_takes_off_white_space(a, data, b);
    assert(line_data("data:"@ + s) == data);
}

/// A repeated `data:` counts once, and a line that does not start with it gives
/// nothing.
pub proof fn data_is_marked_at_the_start_of_a_line(line: Seq<char>)
    ensures
        (exists|rest: Seq<char>| line == #[trigger] ("data:"@ + rest)) ==> heard_in_line(
            "data:"@ + line,
        ) == heard_in_line(line),
        (forall|rest: Seq<char>| line != #[trigger] ("data:"@ + rest)) ==> heard_in_line(line)
            == (HeardView { texts: seq![], done: false }),
{
    reveal_strlit("data:");
    prefixes_stand_in_front(line, "data:"@);
    prefixes_stand_in_front("data:"@ + line, "data:"@);
    each_prefix_is_taken_off(line, "data:"@);
}

/// Lines, and blocks of lines, are heard one after another up to the end of the
/// answer: each adds all of its pieces.
pub proof fn lines_and_blocks_are_heard_one_by_one(
    line: Seq<char>,
    lines_after: Seq<Seq<char>>,
    block: Seq<char>,
    blocks_after: Seq<Seq<char>>,
)
    ensures
        heard_in_lines(seq![]) == (HeardView { texts: seq![], done: false }),
        heard_in_lines(seq![line] + lines_after) == if heard_in_line(line).done {
            heard_in_line(line)
        } else {
            HeardView {
                texts: heard_in_line(line).texts + heard_in_lines(lines_after).texts,
                done: heard_in_lines(lines_after).done,
            }
        },
        heard_in_block(block) == heard_in_lines(lines(block)),
        heard_in_blocks(seq![]) == (HeardView { texts: seq![], done: false }),
        heard_in_blocks(seq![block] + blocks_after) == if heard_in_lines(
            lines(trimmed(block)),
        ).done {
            heard_in_lines(lines(trimmed(block)))
        } else {
            HeardView {
                texts: heard_in_lines(lines(trimmed(block))).texts + heard_in_blocks(
                    blocks_after,
                ).texts,
                done: heard_in_blocks(blocks_after).done,
            }
        },
{
    assert((seq![line] + lines_after).drop_first() =~= lines_after);
    assert((seq![block] + blocks_after).drop_first() =~= blocks_after);
}

proof fn lemma_find_behind(p: Seq<char>, s: Seq<char>)
    requires
        !p.contains('\r'),
    ensures
        find(p + s, "\r\n"@) == match find(s, "\r\n"@) {
            Some(i) => Some(p.len() + i),
            None => None,
        },
    decreases p.len(),
{
    reveal_strlit("\r\n");
    if p.len() == 0 {
        assert(p + s =~= s);
    } else {
        let all = p + s;
        let rest = p.drop_first();
        assert(p.contains(p[0]));
        assert(all.first() == p[0]);
        if starts_with(all, "\r\n"@) {
            assert(all.take(2)[0] == '\r');
        }
        assert(!rest.contains('\r')) by {
            if rest.contains('\r') {
                let i = choose|i: int| 0 <= i < rest.len() && rest[i] == '\r';
                assert(p[i + 1] == '\r');
            }
        }
        lemma_find_behind(rest, s);
        assert(all.drop_first() =~= rest + s);
    }
}

/// What stands in front of the first carriage return stays.
proof fn lemma_replaced_behind(p: Seq<char>, s: Seq<char>)
    requires
        !p.contains('\r'),
    ensures
        replaced(p + s, "\r\n"@, "\n"@) == p + replaced(s, "\r\n"@, "\n"@),
{
    reveal_strlit("\r\n");
    lemma_find_behind(p, s);
    lemma_find_bounds(s, "\r\n"@);
    match find(s, "\r\n"@) {
        Some(i) => {
            assert((p + s).take(p.len() + i) =~= p + s.take(i));
            assert((p + s).skip(p.len() + i + 2) =~= s.skip(i + 2));
            assert(replaced(p + s, "\r\n"@, "\n"@) =~= p + replaced(s, "\r\n"@, "\n"@));
        },
        None => {},
    }
}

/// A chunk is heard block by block: a block reaches up to the first empty line;
/// its lines are heard, without the white space around the block, and then the
/// rest of the chunk as if it stood alone.
pub proof fn chunks_are_heard_block_by_block(chunk: Seq<u8>, rest: Seq<u8>, block: Seq<char>)
    requires
        valid_utf8(chunk),
        valid_utf8(rest),
        decode_utf8(chunk) == block + "\n\n"@ + decode_utf8(rest),
        !block.contains('\r'),
        forall|j: int|
            0 <= j < block.len() ==> #[trigger] (block + "\n\n"@).subrange(j, j + 2) != "\n\n"@,
    ensures
        ({
            let first = heard_in_lines(lines(trimmed(block)));
            heard_in_chunk(chunk) == if first.done {
                first
            } else {
                HeardView {
                    texts: first.texts + heard_in_chunk(rest).texts,
                    done: heard_in_chunk(rest).done,
                }
            }
        }),
{
    reveal_strlit("\n\n");
    reveal_strlit("\r\n");
    let gap = "\n\n"@;
    let p = block + gap;
    let r = decode_utf8(rest);
    assert(!p.contains('\r')) by {
        if p.contains('\r') {
            let i = choose|i: int| 0 <= i < p.len() && p[i] == '\r';
            if i < block.len() {
                assert(block[i] == '\r');
            }
        }
    }
    lemma_replaced_behind(p, r);
    let after = replaced(r, "\r\n"@, "\n"@);
    let s = block + gap + after;
    assert forall|j: int| 0 <= j < block.len() implies #[trigger] s.subrange(j, j + gap.len())
        != gap by {
        assert(s.subrange(j, j + 2) =~= p.subrange(j, j + 2));
    }
    texts_are_cut_at_each_occurrence(block, gap, after, gap);
    lines_and_blocks_are_heard_one_by_one(block, seq![], block, split(after, gap));
}

/// A chunk without an empty line is one block, and one that is no text in UTF-8
/// gives nothing.
pub proof fn a_chunk_without_an_empty_line_is_one_block(chunk: Seq<u8>)
    ensures
        valid_utf8(chunk) && !decode_utf8(chunk).contains('\r') && (forall|j: int|
            0 <= j <= decode_utf8(chunk).len() - 2 ==> #[trigger] decode_utf8(chunk).subrange(
                j,
                j + 2,
            ) != "\n\n"@) ==> heard_in_chunk(chunk) == heard_in_lines(
            lines(trimmed(decode_utf8(chunk))),
        ),
        !valid_utf8(chunk) ==> heard_in_chunk(chunk) == (HeardView { texts: seq![], done: false }),
{
    reveal_strlit("\n\n");
    reveal_strlit("\r\n");
    let s = decode_utf8(chunk);
    if valid_utf8(chunk) && !s.contains('\r') && (forall|j: int|
        0 <= j <= s.len() - 2 ==> #[trigger] s.subrange(j, j + 2) != "\n\n"@) {
        let nothing = Seq::<char>::empty();
        lemma_replaced_behind(s, nothing);
        assert(s + nothing =~= s);
        assert(replaced(nothing, "\r\n"@, "\n"@) =~= nothing) by {
            lemma_find_bounds(nothing, "\r\n"@);
        }
        texts_without_the_pattern_stay_whole(s, "\n\n"@, "\n\n"@);
        lines_and_blocks_are_heard_one_by_one(s, seq![], s, seq![]);
        assert(seq![s] + Seq::<Seq<char>>::empty() =~= seq![s]);
        let first = heard_in_lines(lines(trimmed(s)));
        assert(first.texts + Seq::<Seq<char>>::empty() =~= first.texts);
    }
}

/// A carriage return in front of a line feed does not count.
pub proof fn carriage_returns_do_not_count(
    with: Seq<u8>,
    without: Seq<u8>,
    a: Seq<char>,
    b: Seq<char>,
)
    requires
        valid_utf8(with),
        valid_utf8(without),
        decode_utf8(with) == a + "\r\n"@ + b,
        decode_utf8(without) == a + "\n"@ + b,
        !a.contains('\r'),
    ensures
        heard_in_chunk(with) == heard_in_chunk(without),
{
    reveal_strlit("\r\n");
    reveal_strlit("\n");
    let crlf = "\r\n"@;
    let feed = "\n"@;
    let s = a + crlf + b;
    assert forall|j: int| 0 <= j < a.len() implies #[trigger] s.subrange(j, j + crlf.len())
        != crlf by {
        assert(s.subrange(j, j + 2)[0] == a[j]);
        assert(a.contains(a[j]));
    }
    texts_are_cut_at_each_occurrence(a, crlf, b, feed);
    let p = a + feed;
    assert(!p.contains('\r')) by {
        if p.contains('\r') {
            let i = choose|i: int| 0 <= i < p.len() && p[i] == '\r';
            if i < a.len() {
                assert(a[i] == '\r');
            }
        }
    }
    lemma_replaced_behind(p, b);
}

} // verus!
