//! The gathering of the answer into paragraphs.

use crate::citation::cited;
use crate::citation::names_of_bot;
use crate::citation::replace_citations;
use crate::directory::Directory;
use crate::stream::heard_in_chunk;
use crate::stream::process_chunk;
use crate::stream::EMPTY_LINE;
use crate::text::chars_of;
use crate::text::find;
use crate::text::find_in;
use crate::text::ink;
use crate::text::ink_follows_the_text;
use crate::text::lemma_find;
use crate::text::lemma_find_bounds;
use crate::text::starts_with;
use crate::text::string_of;
use crate::text::texts;
use crate::text::the_first_occurrence_is_found;
use crate::text::trim;
use crate::text::trimmed;
use crate::text::trimming_keeps_the_ink;
use crate::text::white_space_at_the_end_does_not_count;
use std::collections::VecDeque;
use vstd::prelude::*;
use vstd::slice::slice_subrange;

verus! {

/// The part of an answer that was received and not yet sent on.
pub struct Answer {
    buffer: Vec<char>,
    pending: VecDeque<String>,
    ended: bool,
}

/// The part of an answer that was received and not yet sent on: the text that
/// was gathered, the pieces that are still to be added to it, and whether the
/// end of the answer was heard.
pub struct AnswerView {
    pub buffer: Seq<char>,
    pub pending: Seq<Seq<char>>,
    pub ended: bool,
}

impl View for Answer {
    type V = AnswerView;

    closed spec fn view(&self) -> AnswerView {
        AnswerView {
            buffer: self.buffer@,
            pending: texts(self.pending@),
            ended: self.ended,
        }
    }
}

/// The answer after a chunk.
pub open spec fn fed(a: AnswerView, chunk: Seq<u8>) -> AnswerView {
    let heard = heard_in_chunk(chunk);
    AnswerView {
        buffer: a.buffer,
        pending: a.pending + heard.texts,
        ended: a.ended || heard.done,
    }
}

/// The next paragraph that can be sent on, and the answer without it. A
/// paragraph reaches up to an empty line; white space around it is taken off,
/// and nothing is sent where nothing is left. Where no empty line has been
/// gathered, the next piece is added.
pub open spec fn next(a: AnswerView) -> (AnswerView, Option<Seq<char>>)
    decreases a.pending.len(), a.buffer.len(),
{
    match find(a.buffer, EMPTY_LINE@) {
        Some(i) => {
            proof {
                lemma_find_bounds(a.buffer, EMPTY_LINE@);
                reveal_strlit("\n\n");
            }
            let paragraph = trimmed(a.buffer.take(i + 2));
            let rest = AnswerView { buffer: a.buffer.skip(i + 2), ..a };
            if paragraph.len() > 0 {
                (rest, Some(paragraph))
            } else {
                next(rest)
            }
        },
        None => if a.pending.len() > 0 {
            next(
                AnswerView {
                    buffer: a.buffer + a.pending.first(),
                    pending: a.pending.drop_first(),
                    ..a
                },
            )
        } else {
            (a, None)
        },
    }
}

/// What remains to be sent when the stream is over.
pub open spec fn remainder(a: AnswerView) -> Option<Seq<char>> {
    if trimmed(a.buffer).len() > 0 {
        Some(trimmed(a.buffer))
    } else {
        None
    }
}

impl Answer {
    /// An answer of which nothing has been received.
    pub fn new() -> (r: Answer)
        ensures
            r@ == (AnswerView { buffer: seq![], pending: seq![], ended: false }),
    {
        let r = Answer { buffer: Vec::new(), pending: VecDeque::new(), ended: false };
        assert(r@.buffer =~= seq![]);
        assert(r@.pending =~= seq![]);
        r
    }

    /// Takes in a chunk of the stream.
    pub fn feed(&mut self, chunk: &[u8])
        ensures
            final(self)@ == fed(old(self)@, chunk@),
    {
        let heard = process_chunk(chunk);
        let ghost before = self@.pending;
        let ghost heard_texts = texts(heard.texts@);
        let n: usize = heard.texts.len();
        let mut i: usize = 0;
        assert(before + heard_texts.take(0) =~= before);
        while i < n
            invariant
                n == heard.texts@.len(),
                i <= n,
                heard_texts == texts(heard.texts@),
                self@.pending == before + heard_texts.take(i as int),
                self@.buffer == old(self)@.buffer,
                self@.ended == old(self)@.ended,
            decreases n - i,
        {
            let ghost queue = self.pending@;
            let piece = heard.texts[i].clone();
            self.pending.push_back(piece);
            assert(texts(self.pending@) =~= texts(queue).push(heard_texts[i as int]));
            assert(before + heard_texts.take(i + 1) =~= (before + heard_texts.take(i as int)).push(
                heard_texts[i as int],
            ));
            i += 1;
        }
        assert(heard_texts.take(n as int) =~= heard_texts);
        if heard.done {
            self.ended = true;
        }
    }

    /// Whether the end of the answer was heard.
    pub fn has_ended(&self) -> (r: bool)
        ensures
            r == self@.ended,
    {
        self.ended
    }

    /// Takes out the next paragraph that can be sent on.
    pub fn next_paragraph(&mut self) -> (r: Option<String>)
        ensures
            match r {
                Some(s) => next(old(self)@) == (final(self)@, Some(s@)),
                None => next(old(self)@) == (final(self)@, None::<Seq<char>>),
            },
    {
        proof {
            reveal_strlit("\n\n");
        }
        let mark = chars_of(EMPTY_LINE);
        loop
            invariant
                mark@ == EMPTY_LINE@,
                mark@.len() == 2,
                next(self@) == next(old(self)@),
            decreases self@.pending.len(), self@.buffer.len(),
        {
            let ghost here = self@;
            match find_in(self.buffer.as_slice(), mark.as_slice()) {
                Some(i) => {
                    proof {
                        lemma_find_bounds(here.buffer, EMPTY_LINE@);
                    }
                    let n: usize = self.buffer.len();
                    let head = string_of(
                        trim(slice_subrange(self.buffer.as_slice(), 0, i + 2)),
                    );
                    let mut rest: Vec<char> = Vec::new();
                    rest.extend_from_slice(slice_subrange(self.buffer.as_slice(), i + 2, n));
                    assert(here.buffer.subrange(0, i + 2) =~= here.buffer.take(i + 2));
                    assert(rest@ =~= here.buffer.skip(i + 2));
                    self.buffer = rest;
                    assert(self@ == AnswerView { buffer: here.buffer.skip(i + 2), ..here });
                    if !head.as_str().is_empty() {
                        return Some(head);
                    }
                },
                None => {
                    let ghost queue = self.pending@;
                    match self.pending.pop_front() {
                        Some(piece) => {
                            let more = chars_of(piece.as_str());
                            self.buffer.extend_from_slice(more.as_slice());
                            assert(self.buffer@ =~= here.buffer + here.pending.first());
                            assert(texts(self.pending@) =~= here.pending.drop_first());
                        },
                        None => {
                            return None;
                        },
                    }
                },
            }
        }
    }

    /// Takes out the next paragraph and turns its citation markers into the names
    /// of the bot's files.
    pub fn next_reply(&mut self, bot_name: &str, files: &Directory<Vec<String>>) -> (r: Option<
        String,
    >)
        ensures
            final(self)@ == next(old(self)@).0,
            match next(old(self)@).1 {
                Some(paragraph) => {
                    &&& r is Some
                    &&& r->0@ == cited(paragraph, names_of_bot(files@, bot_name@))
                },
                None => r is None,
            },
    {
        match self.next_paragraph() {
            Some(paragraph) => Some(replace_citations(paragraph.as_str(), bot_name, files)),
            None => None,
        }
    }

    /// What remains to be sent when the stream is over. It is sent as it stands.
    pub fn rest(&self) -> (r: Option<String>)
        ensures
            match r {
                Some(s) => remainder(self@) == Some(s@),
                None => remainder(self@) is None,
            },
    {
        let s = string_of(trim(self.buffer.as_slice()));
        if s.as_str().is_empty() {
            None
        } else {
            Some(s)
        }
    }
}

// ------------------------------------------------------------------------ laws

/// The paragraphs of a text, each with the empty line that ends it.
pub open spec fn paragraphs(s: Seq<char>) -> Seq<Seq<char>>
    decreases s.len(),
{
    match find(s, EMPTY_LINE@) {
        Some(i) => {
            proof {
                lemma_find_bounds(s, EMPTY_LINE@);
                reveal_strlit("\n\n");
            }
            seq![s.take(i + 2)] + paragraphs(s.skip(i + 2))
        },
        None => seq![],
    }
}

/// What follows the last paragraph of a text.
pub open spec fn unfinished(s: Seq<char>) -> Seq<char>
    decreases s.len(),
{
    match find(s, EMPTY_LINE@) {
        Some(i) => {
            proof {
                lemma_find_bounds(s, EMPTY_LINE@);
                reveal_strlit("\n\n");
            }
            unfinished(s.skip(i + 2))
        },
        None => s,
    }
}

/// What is sent of a sequence of paragraphs: each without the white space around
/// it, where something is left of it.
pub open spec fn sent(paragraphs: Seq<Seq<char>>) -> Seq<Seq<char>>
    decreases paragraphs.len(),
{
    if paragraphs.len() == 0 {
        seq![]
    } else {
        let s = trimmed(paragraphs.first());
        let rest = sent(paragraphs.drop_first());
        if s.len() > 0 {
            seq![s] + rest
        } else {
            rest
        }
    }
}

/// The paragraphs that come out of an answer when the next one is taken out until
/// there is none, and the answer that is then left.
pub open spec fn taken_out(a: AnswerView) -> (Seq<Seq<char>>, AnswerView)
    decreases a.pending.len(), a.buffer.len(),
{
    let (rest, paragraph) = next(a);
    match paragraph {
        Some(s) => {
            proof {
                lemma_next_is_smaller(a);
            }
            let (more, end) = taken_out(rest);
            (seq![s] + more, end)
        },
        None => (seq![], rest),
    }
}

/// Taking a paragraph out leaves fewer pieces, or as many and less text.
pub proof fn lemma_next_is_smaller(a: AnswerView)
    ensures
        next(a).1 is Some ==> {
            ||| next(a).0.pending.len() < a.pending.len()
            ||| next(a).0.pending.len() == a.pending.len() && next(a).0.buffer.len()
                < a.buffer.len()
        },
    decreases a.pending.len(), a.buffer.len(),
{
    reveal_strlit("\n\n");
    lemma_find_bounds(a.buffer, EMPTY_LINE@);
    match find(a.buffer, EMPTY_LINE@) {
        Some(i) => {
            if trimmed(a.buffer.take(i + 2)).len() == 0 {
                lemma_next_is_smaller(AnswerView { buffer: a.buffer.skip(i + 2), ..a });
            }
        },
        None => {
            if a.pending.len() > 0 {
                lemma_next_is_smaller(
                    AnswerView {
                        buffer: a.buffer + a.pending.first(),
                        pending: a.pending.drop_first(),
                        ..a
                    },
                );
            }
        },
    }
}

/// What is found in a text is found at the same place in a longer text.
pub proof fn lemma_find_in_longer(s: Seq<char>, t: Seq<char>, pat: Seq<char>)
    requires
        find(s, pat) is Some,
    ensures
        find(s + t, pat) == find(s, pat),
    decreases s.len(),
{
    if starts_with(s, pat) {
        assert((s + t).take(pat.len() as int) =~= s.take(pat.len() as int));
    } else {
        assert((s + t).drop_first() =~= s.drop_first() + t);
        if starts_with(s + t, pat) {
            lemma_find(s, pat);
            assert(pat.len() <= s.len());
            assert((s + t).take(pat.len() as int) =~= s.take(pat.len() as int));
        }
        lemma_find_in_longer(s.drop_first(), t, pat);
    }
}

/// Nothing of a text is lost when it is cut into paragraphs: they and what
/// follows them make up the text.
pub proof fn paragraphs_make_up_the_text(s: Seq<char>)
    ensures
        paragraphs(s).flatten() + unfinished(s) == s,
        find(unfinished(s), EMPTY_LINE@) is None,
    decreases s.len(),
{
    reveal_strlit("\n\n");
    lemma_find_bounds(s, EMPTY_LINE@);
    match find(s, EMPTY_LINE@) {
        Some(i) => {
            let first = s.take(i + 2);
            let rest = s.skip(i + 2);
            paragraphs_make_up_the_text(rest);
            let all = paragraphs(s);
            assert(all.drop_first() =~= paragraphs(rest));
            assert(all.first() == first);
            assert(all.flatten() =~= first + paragraphs(rest).flatten());
            assert(s =~= first + rest);
            assert(all.flatten() + unfinished(s) =~= first + (paragraphs(rest).flatten()
                + unfinished(rest)));
        },
        None => {
            assert(paragraphs(s).flatten() =~= seq![]);
            assert(paragraphs(s).flatten() + unfinished(s) =~= s);
        },
    }
}

/// What is sent does not depend on how the answer was cut into pieces. Whatever
/// was gathered and whatever pieces are pending, what comes out are the
/// paragraphs of the whole text, and what is left is the end of the whole text.
pub proof fn pieces_do_not_matter(a: AnswerView)
    ensures
        taken_out(a).0 == sent(paragraphs(a.buffer + a.pending.flatten())),
        taken_out(a).1 == (AnswerView {
            buffer: unfinished(a.buffer + a.pending.flatten()),
            pending: seq![],
            ended: a.ended,
        }),
    decreases a.pending.len(), a.buffer.len(),
{
    reveal_strlit("\n\n");
    lemma_find_bounds(a.buffer, EMPTY_LINE@);
    let whole = a.buffer + a.pending.flatten();
    match find(a.buffer, EMPTY_LINE@) {
        Some(i) => {
            let rest = AnswerView { buffer: a.buffer.skip(i + 2), ..a };
            pieces_do_not_matter(rest);
            lemma_find_in_longer(a.buffer, a.pending.flatten(), EMPTY_LINE@);
            assert(whole.take(i + 2) =~= a.buffer.take(i + 2));
            assert(whole.skip(i + 2) =~= rest.buffer + a.pending.flatten());
            let all = paragraphs(whole);
            assert(all.drop_first() =~= paragraphs(whole.skip(i + 2)));
            assert(all.first() == a.buffer.take(i + 2));
        },
        None => {
            if a.pending.len() > 0 {
                let more = AnswerView {
                    buffer: a.buffer + a.pending.first(),
                    pending: a.pending.drop_first(),
                    ..a
                };
                pieces_do_not_matter(more);
                assert(a.pending.flatten() =~= a.pending.first() + a.pending.drop_first().flatten());
                assert(whole =~= more.buffer + more.pending.flatten());
                assert(taken_out(a) == taken_out(more));
            } else {
                assert(a.pending.flatten() =~= seq![]);
                assert(whole =~= a.buffer);
                assert(a.pending =~= seq![]);
            }
        },
    }
}

/// No empty line stands in `p` or reaches into it, where one follows it.
spec fn is_paragraph(p: Seq<char>) -> bool {
    forall|j: int| 0 <= j < p.len() ==> #[trigger] (p + "\n\n"@).subrange(j, j + 2) != "\n\n"@
}

proof fn lemma_end_of_paragraph(p: Seq<char>, rest: Seq<char>)
    requires
        is_paragraph(p),
    ensures
        find(p + "\n\n"@ + rest, EMPTY_LINE@) == Some(p.len() as int),
        (p + "\n\n"@ + rest).take(p.len() as int + 2) == p + "\n\n"@,
        (p + "\n\n"@ + rest).skip(p.len() as int + 2) == rest,
        trimmed(p + "\n\n"@) == trimmed(p),
{
    reveal_strlit("\n\n");
    let gap = "\n\n"@;
    let s = p + gap + rest;
    assert forall|j: int| 0 <= j < p.len() implies #[trigger] s.subrange(j, j + gap.len())
        != gap by {
        assert(s.subrange(j, j + 2) =~= (p + gap).subrange(j, j + 2));
    }
    the_first_occurrence_is_found(p, gap, rest);
    assert(s.take(p.len() as int + 2) =~= p + gap);
    assert(s.skip(p.len() as int + 2) =~= rest);
    white_space_at_the_end_does_not_count(p, gap);
}

/// The next paragraph is what stands in front of the first empty line that was
/// gathered, as a whole but for the white space around it; where that is only
/// white space, it is the next one after it. It leaves the answer with its empty
/// line, and nothing else does.
pub proof fn paragraphs_come_out_at_empty_lines(a: AnswerView, p: Seq<char>, rest: Seq<char>)
    requires
        a.buffer == p + "\n\n"@ + rest,
        forall|j: int|
            0 <= j < p.len() ==> #[trigger] (p + "\n\n"@).subrange(j, j + 2) != "\n\n"@,
    ensures
        ({
            let left = AnswerView { buffer: rest, pending: a.pending, ended: a.ended };
            next(a) == if trimmed(p).len() > 0 {
                (left, Some(trimmed(p)))
            } else {
                next(left)
            }
        }),
{
    lemma_end_of_paragraph(p, rest);
    assert(a.buffer.take(p.len() as int + 2) == p + "\n\n"@);
}

/// Where no empty line has been gathered, the next piece is added as a whole;
/// where there is none, no paragraph comes out, and nothing changes.
pub proof fn pieces_are_added_until_a_line_is_empty(a: AnswerView)
    requires
        forall|j: int|
            0 <= j <= a.buffer.len() - 2 ==> #[trigger] a.buffer.subrange(j, j + 2) != "\n\n"@,
    ensures
        a.pending.len() > 0 ==> next(a) == next(
            AnswerView {
                buffer: a.buffer + a.pending.first(),
                pending: a.pending.drop_first(),
                ended: a.ended,
            },
        ),
        a.pending.len() == 0 ==> next(a) == (a, None::<Seq<char>>),
{
    reveal_strlit("\n\n");
    lemma_find(a.buffer, EMPTY_LINE@);
    if let Some(i) = find(a.buffer, EMPTY_LINE@) {
        assert(a.buffer.subrange(i, i + 2) == "\n\n"@);
    }
}

/// A text is cut into paragraphs at its first empty line, and then in what follows
/// it; a text without an empty line has no finished paragraph.
pub proof fn texts_are_cut_at_empty_lines(p: Seq<char>, rest: Seq<char>)
    requires
        forall|j: int|
            0 <= j < p.len() ==> #[trigger] (p + "\n\n"@).subrange(j, j + 2) != "\n\n"@,
    ensures
        paragraphs(p + "\n\n"@ + rest) == seq![p + "\n\n"@] + paragraphs(rest),
        unfinished(p + "\n\n"@ + rest) == unfinished(rest),
        paragraphs(p) == Seq::<Seq<char>>::empty(),
        unfinished(p) == p,
{
    reveal_strlit("\n\n");
    lemma_end_of_paragraph(p, rest);
    lemma_find(p, EMPTY_LINE@);
    if let Some(i) = find(p, EMPTY_LINE@) {
        assert((p + "\n\n"@).subrange(i, i + 2) =~= p.subrange(i, i + 2));
    }
}

/// Each paragraph is sent as a whole but for the white space around it, in its
/// turn, where it is more than white space.
pub proof fn paragraphs_are_sent_one_by_one(p: Seq<char>, rest: Seq<Seq<char>>)
    ensures
        sent(seq![]) == Seq::<Seq<char>>::empty(),
        sent(seq![p] + rest) == if trimmed(p).len() > 0 {
            seq![trimmed(p)] + sent(rest)
        } else {
            sent(rest)
        },
{
    assert((seq![p] + rest).drop_first() =~= rest);
}

/// A chunk adds all of its pieces, in their order, behind those that are pending,
/// and takes nothing away.
pub proof fn chunks_add_their_pieces(a: AnswerView, chunk: Seq<u8>)
    ensures
        fed(a, chunk) == (AnswerView {
            buffer: a.buffer,
            pending: a.pending + heard_in_chunk(chunk).texts,
            ended: a.ended || heard_in_chunk(chunk).done,
        }),
{
}

/// What remains to be sent is all that was gathered but for the white space around
/// it, where it is more than white space.
pub proof fn what_was_gathered_remains(a: AnswerView)
    ensures
        remainder(a) == if trimmed(a.buffer).len() > 0 {
            Some(trimmed(a.buffer))
        } else {
            None
        },
{
}

/// Of a text nothing but white space is lost, added or moved: what is sent of its
/// paragraphs, and then of what follows them, has the characters of the text.
pub proof fn nothing_but_white_space_is_lost(s: Seq<char>)
    ensures
        ink(sent(paragraphs(s)).flatten() + trimmed(unfinished(s))) == ink(s),
    decreases s.len(),
{
    reveal_strlit("\n\n");
    lemma_find_bounds(s, EMPTY_LINE@);
    let all = sent(paragraphs(s));
    match find(s, EMPTY_LINE@) {
        Some(i) => {
            let first = s.take(i + 2);
            let rest = s.skip(i + 2);
            let more = sent(paragraphs(rest));
            let end = trimmed(unfinished(rest));
            nothing_but_white_space_is_lost(rest);
            paragraphs_are_sent_one_by_one(first, paragraphs(rest));
            trimming_keeps_the_ink(first);
            assert(s =~= first + rest);
            ink_follows_the_text(first, rest);
            if trimmed(first).len() > 0 {
                assert(all.first() == trimmed(first));
                assert(all.drop_first() =~= more);
                assert(all.flatten() =~= trimmed(first) + more.flatten());
                assert(all.flatten() + end =~= trimmed(first) + (more.flatten() + end));
                ink_follows_the_text(trimmed(first), more.flatten() + end);
            } else {
                assert(trimmed(first) =~= Seq::empty());
                assert(ink(Seq::<char>::empty()) =~= Seq::empty()) by {
                    reveal(Seq::filter);
                }
                assert(Seq::<char>::empty() + ink(rest) =~= ink(rest));
            }
        },
        None => {
            assert(paragraphs(s) =~= seq![]);
            assert(all.flatten() =~= seq![]);
            assert(all.flatten() + trimmed(s) =~= trimmed(s));
            trimming_keeps_the_ink(s);
        },
    }
}

} // verus!
