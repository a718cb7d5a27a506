//! What becomes of a whole answer: the laws that the streaming, the cutting into
//! paragraphs and the course of a job keep together.

use crate::citation::cited;
use crate::citation::without_names_nothing_changes;
use crate::config::BotConfig;
use crate::config::BotConfigView;
use crate::conversation::conversation_next;
use crate::conversation::conversation_run;
use crate::conversation::conversation_start;
use crate::conversation::finishing;
use crate::conversation::paragraphs_are_told_in_turn;
use crate::conversation::relaying;
use crate::conversation::remembering;
use crate::conversation::told_in_turn;
use crate::conversation::Attempt;
use crate::conversation::ConversationView;
use crate::conversation::Event;
use crate::conversation::StageView;
use crate::json::bytes_tree;
use crate::json::member;
use crate::json::JsonView;
use crate::openai::create_run_request;
use crate::openai::create_thread_request;
use crate::openai::threads_are_named_by_their_id;
use crate::paragraph::fed;
use crate::paragraph::lemma_find_in_longer;
use crate::paragraph::lemma_next_is_smaller;
use crate::paragraph::next;
use crate::paragraph::nothing_but_white_space_is_lost;
use crate::paragraph::paragraphs;
use crate::paragraph::paragraphs_make_up_the_text;
use crate::paragraph::pieces_do_not_matter;
use crate::paragraph::sent;
use crate::paragraph::taken_out;
use crate::paragraph::unfinished;
use crate::paragraph::AnswerView;
use crate::stream::heard_in_chunk;
use crate::stream::heard_in_turn;
use crate::stream::silence;
use crate::stream::HeardView;
use crate::stream::EMPTY_LINE;
use crate::telegram::Update;
use crate::text::find;
use crate::text::ink;
use crate::text::lemma_find_bounds;
use crate::text::trimmed;
use crate::webhook::addressed_bot;
use crate::webhook::intake_next;
use crate::webhook::intake_start;
use crate::webhook::Delivery;
use crate::webhook::IntakeEvent;
use crate::webhook::JobView;
use vstd::prelude::*;

verus! {

/// What a series of chunks holds.
pub open spec fn heard_in_chunks(chunks: Seq<Vec<u8>>) -> HeardView
    decreases chunks.len(),
{
    if chunks.len() == 0 {
        silence()
    } else {
        heard_in_turn(heard_in_chunk(chunks.first()@), heard_in_chunks(chunks.drop_first()))
    }
}

/// A job after the texts that are sent one after another have been sent.
pub open spec fn drained(c: ConversationView, names: Option<Seq<Seq<char>>>) -> ConversationView
    decreases c.answer.pending.len(), c.answer.buffer.len(),
{
    if c.stage is Tell {
        let after = conversation_next(c, Event::Told, names);
        if after.stage is Tell {
            proof {
                lemma_next_is_smaller(c.answer);
            }
            drained(after, names)
        } else {
            after
        }
    } else {
        c
    }
}

/// The texts that are sent while a series of chunks arrives, and the job then.
/// Each text is sent before the next chunk is waited for; nothing is waited for
/// after the end of the answer.
pub open spec fn listened(
    c: ConversationView,
    chunks: Seq<Vec<u8>>,
    names: Option<Seq<Seq<char>>>,
) -> (Seq<Seq<char>>, ConversationView)
    decreases chunks.len(),
{
    if chunks.len() == 0 || !(c.stage is Listen) {
        (seq![], c)
    } else {
        let at = conversation_next(c, Event::Chunk(chunks.first()), names);
        let (more, end) = listened(drained(at, names), chunks.drop_first(), names);
        (told_in_turn(at, names) + more, end)
    }
}

/// Where no paragraph can be taken out, nothing is pending and no empty line has
/// been gathered.
proof fn lemma_nothing_next(a: AnswerView)
    ensures
        next(a).0.ended == a.ended,
        next(a).1 is None ==> next(a).0.pending.len() == 0 && find(
            next(a).0.buffer,
            EMPTY_LINE@,
        ) is None,
    decreases a.pending.len(), a.buffer.len(),
{
    reveal_strlit("\n\n");
    lemma_find_bounds(a.buffer, EMPTY_LINE@);
    match find(a.buffer, EMPTY_LINE@) {
        Some(i) => {
            if trimmed(a.buffer.take(i + 2)).len() == 0 {
                lemma_nothing_next(AnswerView { buffer: a.buffer.skip(i + 2), ..a });
            }
        },
        None => {
            if a.pending.len() > 0 {
                lemma_nothing_next(
                    AnswerView {
                        buffer: a.buffer + a.pending.first(),
                        pending: a.pending.drop_first(),
                        ..a
                    },
                );
            }
        },
    }
}

/// Nothing is waited for while there is something to send: whatever happened,
/// whenever a job waits for a chunk, all that was heard has been gathered, no
/// paragraph of it is left, and the end of the answer was not heard.
pub proof fn nothing_is_left_while_listening(
    job: JobView,
    token: Seq<char>,
    events: Seq<Event>,
    names: Option<Seq<Seq<char>>>,
)
    ensures
        ({
            let c = conversation_run(conversation_start(job, token), events, names);
            c.stage is Listen ==> {
                &&& c.answer.pending.len() == 0
                &&& find(c.answer.buffer, EMPTY_LINE@) is None
                &&& !c.answer.ended
            }
        }),
{
    lemma_listening(job, token, events, names);
}

proof fn lemma_listening(
    job: JobView,
    token: Seq<char>,
    events: Seq<Event>,
    names: Option<Seq<Seq<char>>>,
)
    ensures
        ({
            let start = conversation_start(job, token);
            let c = conversation_run(start, events, names);
            &&& c.stage is LookUp || c.stage is Ask || c.stage is Open || c.stage is Run
                ==> c.answer == start.answer
            &&& c.stage is Listen ==> c.answer.pending.len() == 0 && find(
                c.answer.buffer,
                EMPTY_LINE@,
            ) is None && !c.answer.ended
        }),
    decreases events.len(),
{
    let start = conversation_start(job, token);
    reveal_strlit("\n\n");
    assert(find(start.answer.buffer, EMPTY_LINE@) is None);
    if events.len() > 0 {
        lemma_listening(job, token, events.drop_last(), names);
        let before = conversation_run(start, events.drop_last(), names);
        match (before.stage, events.last()) {
            (StageView::Listen { .. }, Event::Chunk(chunk)) => {
                lemma_nothing_next(fed(before.answer, chunk@));
            },
            (StageView::Tell { .. }, Event::Told) => {
                lemma_nothing_next(before.answer);
            },
            _ => {},
        }
    }
}

/// What is sent from a place where the next paragraph is looked for, and how it
/// ends.
proof fn lemma_relaying(c: ConversationView, thread_id: Seq<char>, names: Option<Seq<Seq<char>>>)
    ensures
        ({
            let at = relaying(c, thread_id, names);
            let end = drained(at, names);
            &&& told_in_turn(at, names) == taken_out(c.answer).0.map_values(
                |p: Seq<char>| cited(p, names),
            )
            &&& end.answer == taken_out(c.answer).1
            &&& end.job == c.job
            &&& end.stage == if c.answer.ended {
                finishing(end, thread_id)
            } else {
                StageView::Listen { thread_id: thread_id }
            }
        }),
    decreases c.answer.pending.len(), c.answer.buffer.len(),
{
    let f = |p: Seq<char>| cited(p, names);
    let at = relaying(c, thread_id, names);
    let (rest, paragraph) = next(c.answer);
    lemma_nothing_next(c.answer);
    match paragraph {
        Some(p) => {
            lemma_next_is_smaller(c.answer);
            lemma_relaying(at, thread_id, names);
            paragraphs_are_told_in_turn(at, names);
            assert(at.answer == rest);
            assert(taken_out(c.answer).0.map_values(f) =~= seq![cited(p, names)] + taken_out(
                rest,
            ).0.map_values(f));
        },
        None => {
            assert(taken_out(c.answer).0.map_values(f) =~= seq![]);
        },
    }
}

/// The paragraphs of a longer text are those of its start and those of what
/// follows them.
proof fn lemma_paragraphs_of_longer(s: Seq<char>, t: Seq<char>)
    ensures
        paragraphs(s + t) == paragraphs(s) + paragraphs(unfinished(s) + t),
        unfinished(s + t) == unfinished(unfinished(s) + t),
    decreases s.len(),
{
    reveal_strlit("\n\n");
    lemma_find_bounds(s, EMPTY_LINE@);
    match find(s, EMPTY_LINE@) {
        Some(i) => {
            let rest = s.skip(i + 2);
            lemma_find_in_longer(s, t, EMPTY_LINE@);
            lemma_paragraphs_of_longer(rest, t);
            assert((s + t).take(i + 2) =~= s.take(i + 2));
            assert((s + t).skip(i + 2) =~= rest + t);
            assert(paragraphs(s + t) =~= paragraphs(s) + paragraphs(unfinished(s) + t));
        },
        None => {
            assert(paragraphs(s) + paragraphs(s + t) =~= paragraphs(s + t));
        },
    }
}

proof fn lemma_sent_in_turn(a: Seq<Seq<char>>, b: Seq<Seq<char>>)
    ensures
        sent(a + b) == sent(a) + sent(b),
    decreases a.len(),
{
    if a.len() == 0 {
        assert(a + b =~= b);
        assert(sent(a) + sent(b) =~= sent(b));
    } else {
        assert((a + b).drop_first() =~= a.drop_first() + b);
        lemma_sent_in_turn(a.drop_first(), b);
        assert(sent(a + b) =~= sent(a) + sent(b));
    }
}

proof fn lemma_flat_in_turn(a: Seq<Seq<char>>, b: Seq<Seq<char>>)
    ensures
        (a + b).flatten() == a.flatten() + b.flatten(),
    decreases a.len(),
{
    if a.len() == 0 {
        assert(a + b =~= b);
        assert(a.flatten() + b.flatten() =~= b.flatten());
    } else {
        assert((a + b).drop_first() =~= a.drop_first() + b);
        lemma_flat_in_turn(a.drop_first(), b);
        assert((a + b).flatten() =~= a.flatten() + b.flatten());
    }
}

/// Whatever chunks arrive, and however the answer is cut into them: what has been
/// sent are the paragraphs of the text that was heard, in their order, each with
/// its citations; what is gathered is the end of that text. The job waits on,
/// unless the end of the answer was heard.
pub proof fn what_is_heard_is_told(
    c: ConversationView,
    thread_id: Seq<char>,
    chunks: Seq<Vec<u8>>,
    names: Option<Seq<Seq<char>>>,
)
    requires
        c.stage == (StageView::Listen { thread_id: thread_id }),
        c.answer.pending.len() == 0,
        find(c.answer.buffer, EMPTY_LINE@) is None,
        !c.answer.ended,
    ensures
        ({
            let heard = heard_in_chunks(chunks);
            let whole = c.answer.buffer + heard.texts.flatten();
            let (told, end) = listened(c, chunks, names);
            &&& told == sent(paragraphs(whole)).map_values(|p: Seq<char>| cited(p, names))
            &&& end.answer == AnswerView {
                buffer: unfinished(whole),
                pending: seq![],
                ended: heard.done,
            }
            &&& end.job == c.job
            &&& end.stage == if heard.done {
                finishing(end, thread_id)
            } else {
                StageView::Listen { thread_id: thread_id }
            }
        }),
    decreases chunks.len(),
{
    let f = |p: Seq<char>| cited(p, names);
    let heard = heard_in_chunks(chunks);
    let buffer = c.answer.buffer;
    let whole = buffer + heard.texts.flatten();
    if chunks.len() == 0 {
        assert(heard.texts.flatten() =~= seq![]);
        assert(whole =~= buffer);
        assert(sent(paragraphs(whole)).map_values(f) =~= seq![]);
        assert(c.answer.pending =~= seq![]);
    } else {
        let first = heard_in_chunk(chunks.first()@);
        let later = heard_in_chunks(chunks.drop_first());
        let gathered = fed(c.answer, chunks.first()@);
        let filled = ConversationView { answer: gathered, ..c };
        let at = conversation_next(c, Event::Chunk(chunks.first()), names);
        let after = drained(at, names);
        let start = buffer + first.texts.flatten();
        assert(at == relaying(filled, thread_id, names));
        lemma_relaying(filled, thread_id, names);
        pieces_do_not_matter(gathered);
        assert(gathered.pending =~= first.texts);
        assert(told_in_turn(at, names) == sent(paragraphs(start)).map_values(f));
        assert(after.answer.buffer == unfinished(start));
        if first.done {
            assert(heard == first);
            let (more, end) = listened(after, chunks.drop_first(), names);
            assert(!(after.stage is Listen));
            assert(told_in_turn(at, names) + more =~= told_in_turn(at, names));
        } else {
            paragraphs_make_up_the_text(start);
            what_is_heard_is_told(after, thread_id, chunks.drop_first(), names);
            lemma_flat_in_turn(first.texts, later.texts);
            assert(whole =~= start + later.texts.flatten());
            lemma_paragraphs_of_longer(start, later.texts.flatten());
            let tail = unfinished(start) + later.texts.flatten();
            lemma_sent_in_turn(paragraphs(start), paragraphs(tail));
            assert(sent(paragraphs(whole)).map_values(f) =~= sent(paragraphs(start)).map_values(f)
                + sent(paragraphs(tail)).map_values(f));
        }
    }
}

/// A run whose answer arrives in these chunks, and whose stream then closes where
/// the end of the answer was not heard, has all of the answer sent: its
/// paragraphs with their citations, then what follows the last of them as it
/// stands, where that is more than white space. Then the thread is remembered.
pub proof fn the_whole_answer_is_told(
    c: ConversationView,
    thread_id: Seq<char>,
    chunks: Seq<Vec<u8>>,
    names: Option<Seq<Seq<char>>>,
)
    requires
        c.stage == (StageView::Listen { thread_id: thread_id }),
        c.answer == (AnswerView { buffer: seq![], pending: seq![], ended: false }),
    ensures
        ({
            let heard = heard_in_chunks(chunks);
            let whole = heard.texts.flatten();
            let (told, end) = listened(c, chunks, names);
            let closed = if heard.done {
                end
            } else {
                conversation_next(end, Event::StreamOver, names)
            };
            let rest = trimmed(unfinished(whole));
            &&& told == sent(paragraphs(whole)).map_values(|p: Seq<char>| cited(p, names))
            &&& paragraphs(whole).flatten() + unfinished(whole) == whole
            &&& closed.stage == if rest.len() > 0 {
                StageView::TellRest { thread_id: thread_id, text: rest }
            } else {
                remembering(c, thread_id)
            }
        }),
{
    reveal_strlit("\n\n");
    let heard = heard_in_chunks(chunks);
    assert(find(c.answer.buffer, EMPTY_LINE@) is None);
    assert(c.answer.buffer + heard.texts.flatten() =~= heard.texts.flatten());
    what_is_heard_is_told(c, thread_id, chunks, names);
    paragraphs_make_up_the_text(heard.texts.flatten());
}

/// Of an answer whose citations are left as they are, nothing but white space is
/// lost, added or moved: the texts that are sent, the last of them included, have
/// the characters of the answer, however it was cut into chunks.
pub proof fn the_reader_gets_each_character(
    c: ConversationView,
    thread_id: Seq<char>,
    chunks: Seq<Vec<u8>>,
)
    requires
        c.stage == (StageView::Listen { thread_id: thread_id }),
        c.answer == (AnswerView { buffer: seq![], pending: seq![], ended: false }),
    ensures
        ({
            let heard = heard_in_chunks(chunks);
            let (told, end) = listened(c, chunks, None);
            let closed = if heard.done {
                end
            } else {
                conversation_next(end, Event::StreamOver, None)
            };
            let rest = match closed.stage {
                StageView::TellRest { text, .. } => text,
                _ => seq![],
            };
            ink(told.flatten() + rest) == ink(heard.texts.flatten())
        }),
{
    let whole = heard_in_chunks(chunks).texts.flatten();
    let plain = sent(paragraphs(whole));
    the_whole_answer_is_told(c, thread_id, chunks, None);
    assert(plain.map_values(|p: Seq<char>| cited(p, None)) =~= plain) by {
        assert forall|i: int| 0 <= i < plain.len() implies cited(#[trigger] plain[i], None)
            == plain[i] by {
            without_names_nothing_changes(plain[i]);
        }
    }
    nothing_but_white_space_is_lost(whole);
    let rest = trimmed(unfinished(whole));
    if rest.len() == 0 {
        assert(rest =~= seq![]);
    }
}

/// A series of chunks is heard one chunk after another, up to the end of the answer.
pub proof fn chunks_are_heard_one_by_one(chunk: Vec<u8>, after: Seq<Vec<u8>>)
    ensures
        heard_in_chunks(seq![]) == (HeardView { texts: seq![], done: false }),
        heard_in_chunks(seq![chunk] + after) == if heard_in_chunk(chunk@).done {
            heard_in_chunk(chunk@)
        } else {
            HeardView {
                texts: heard_in_chunk(chunk@).texts + heard_in_chunks(after).texts,
                done: heard_in_chunks(after).done,
            }
        },
{
    assert((seq![chunk] + after).drop_first() =~= after);
}

/// A message of an unknown sender that is delivered under the path of a bot opens a
/// thread with its text and with the vector store that the table gives for the bot,
/// and the run is started on the thread that the service names, with the assistant
/// that the table gives for the bot.
pub proof fn messages_are_answered_by_the_assistant_of_their_bot(
    path: Seq<char>,
    bots: Map<Seq<char>, BotConfig>,
    name: Seq<char>,
    update: Update,
    token: Seq<char>,
    answer: Vec<u8>,
    document: JsonView,
    id: Seq<char>,
    names: Option<Seq<Seq<char>>>,
)
    requires
        addressed_bot(path) == Some(name),
        bots.contains_key(name),
        update.message is Some,
        update.message->0.text is Some,
        update.message->0.from is None,
        bytes_tree(answer@) == Some(document),
        member(document, "id"@) == Some(JsonView::Text(id)),
    ensures
        ({
            let launch = intake_next(
                intake_start(path, bots),
                IntakeEvent::Received(Delivery::Report(update)),
            );
            let job = launch->Launch_job;
            let start = conversation_start(job, token);
            let run = conversation_next(
                start,
                Event::Attempted(Attempt::Answered(answer)),
                names,
            );
            let config = BotConfigView {
                bot_name: bots[name].bot_name@,
                telegram_bot_token: bots[name].telegram_bot_token@,
                telegram_secret_token: bots[name].telegram_secret_token@,
                openai_assistant_id: bots[name].openai_assistant_id@,
                vector_store_id: bots[name].vector_store_id@,
            };
            &&& launch is Launch
            &&& job.bot_name == name
            &&& start.stage == StageView::Open {
                request: create_thread_request(token, update.message->0.text->0@, config),
            }
            &&& run.stage == StageView::Run {
                thread_id: id,
                request: create_run_request(token, id, config),
            }
        }),
{
    threads_are_named_by_their_id(document);
}

} // verus!
