//! The course of a job.
//!
//! The question goes to the thread of the user, or opens a thread. Then a run is
//! started on the thread, its answer is streamed and sent on paragraph by
//! paragraph, and the thread is remembered. What a stage asks for is done
//! outside; the event that is handed back leads to the next stage.

use crate::citation::cited;
use crate::citation::names_of_bot;
use crate::context::context_to_resume;
use crate::context::fresh;
use crate::context::resumed;
use crate::context::Lookup;
use crate::context::Timestamp;
use crate::context::UserContext;
use crate::context::UserContextView;
use crate::directory::Directory;
use crate::http::Request;
use crate::http::RequestView;
use crate::json::bytes_tree;
use crate::json::member;
use crate::json::JsonView;
use crate::openai::create_message;
use crate::openai::create_message_request;
use crate::openai::create_run;
use crate::openai::create_run_request;
use crate::openai::create_thread;
use crate::openai::create_thread_request;
use crate::openai::created_thread;
use crate::openai::thread_named;
use crate::openai::threads_are_named_by_their_id;
use crate::paragraph::fed;
use crate::paragraph::lemma_next_is_smaller;
use crate::paragraph::next;
use crate::paragraph::remainder;
use crate::paragraph::taken_out;
use crate::paragraph::Answer;
use crate::paragraph::AnswerView;
use crate::text::copy_text;
use crate::text::trimmed;
use crate::webhook::Job;
use crate::webhook::JobView;
use vstd::prelude::*;

verus! {

/// What the user is told where the question could not be added to the thread.
pub const MESSAGE_FAILED: &'static str = "Error creating message";

/// What the user is told where no thread could be opened.
pub const THREAD_FAILED: &'static str = "Error creating thread";

/// What the user is told where no run could be started.
pub const RUN_FAILED: &'static str = "Error creating run";

/// What is to be done next.
#[derive(Debug)]
pub enum Stage {
    /// Look up the stored context of this user.
    LookUp { user_id: i64 },
    /// Add the question to this thread.
    Ask { thread_id: String, request: Request },
    /// Open a thread with the question.
    Open { request: Request },
    /// Start a run on this thread.
    Run { thread_id: String, request: Request },
    /// Wait for the next chunk of the answer.
    Listen { thread_id: String },
    /// Send a paragraph of the answer, while the time for listening runs.
    Tell { thread_id: String, text: String },
    /// Send what remains of the answer.
    TellRest { thread_id: String, text: String },
    /// Read the clock.
    ReadClock { user_id: i64, thread_id: String },
    /// Store this context of the user.
    Store { user_id: i64, context: UserContext },
    /// Send word that a step failed.
    Apologise { text: String },
    /// Nothing.
    Over,
}

/// What is to be done next, mathematically.
pub enum StageView {
    LookUp { user_id: i64 },
    Ask { thread_id: Seq<char>, request: RequestView },
    Open { request: RequestView },
    Run { thread_id: Seq<char>, request: RequestView },
    Listen { thread_id: Seq<char> },
    Tell { thread_id: Seq<char>, text: Seq<char> },
    TellRest { thread_id: Seq<char>, text: Seq<char> },
    ReadClock { user_id: i64, thread_id: Seq<char> },
    Store { user_id: i64, context: UserContextView },
    Apologise { text: Seq<char> },
    Over,
}

impl View for Stage {
    type V = StageView;

    open spec fn view(&self) -> StageView {
        match self {
            Stage::LookUp { user_id } => StageView::LookUp { user_id: *user_id },
            Stage::Ask { thread_id, request } => StageView::Ask {
                thread_id: thread_id@,
                request: request@,
            },
            Stage::Open { request } => StageView::Open { request: request@ },
            Stage::Run { thread_id, request } => StageView::Run {
                thread_id: thread_id@,
                request: request@,
            },
            Stage::Listen { thread_id } => StageView::Listen { thread_id: thread_id@ },
            Stage::Tell { thread_id, text } => StageView::Tell {
                thread_id: thread_id@,
                text: text@,
            },
            Stage::TellRest { thread_id, text } => StageView::TellRest {
                thread_id: thread_id@,
                text: text@,
            },
            Stage::ReadClock { user_id, thread_id } => StageView::ReadClock {
                user_id: *user_id,
                thread_id: thread_id@,
            },
            Stage::Store { user_id, context } => StageView::Store {
                user_id: *user_id,
                context: context@,
            },
            Stage::Apologise { text } => StageView::Apologise { text: text@ },
            Stage::Over => StageView::Over,
        }
    }
}

/// What became of a request: it did not get through, or it was answered with
/// these bytes.
#[derive(Debug)]
pub enum Attempt {
    Failed,
    Answered(Vec<u8>),
}

/// What was done, or what happened.
#[derive(Debug)]
pub enum Event {
    /// The stored context was looked up, at this time.
    LookedUp(Lookup, Timestamp),
    Attempted(Attempt),
    /// A run was started, or not.
    Started(bool),
    /// A chunk of the answer arrived.
    Chunk(Vec<u8>),
    /// The stream of the answer closed or broke.
    StreamOver,
    /// The time for listening ran out.
    TimedOut,
    /// A text was sent, or could not be sent.
    Told,
    Clock(Timestamp),
    Stored,
}

/// A job on its way.
pub struct Conversation {
    job: Job,
    token: String,
    answer: Answer,
    stage: Stage,
}

/// A job on its way, mathematically.
pub struct ConversationView {
    pub job: JobView,
    pub token: Seq<char>,
    pub answer: AnswerView,
    pub stage: StageView,
}

impl View for Conversation {
    type V = ConversationView;

    closed spec fn view(&self) -> ConversationView {
        ConversationView {
            job: self.job@,
            token: self.token@,
            answer: self.answer@,
            stage: self.stage@,
        }
    }
}

// ------------------------------------------------------------------ the course

/// The first request of a job. A known user asks on the thread that is resumed,
/// where there is one; anyone else opens a thread.
pub open spec fn opening(
    token: Seq<char>,
    job: JobView,
    resumed: Option<UserContextView>,
) -> StageView {
    match (job.user_id, resumed) {
        (Some(_), Some(context)) => StageView::Ask {
            thread_id: context.thread_id,
            request: create_message_request(token, context.thread_id, job.prompt),
        },
        _ => StageView::Open { request: create_thread_request(token, job.prompt, job.config) },
    }
}

/// A job at its start. Where the user is known, the stored context is looked up.
pub open spec fn conversation_start(job: JobView, token: Seq<char>) -> ConversationView {
    ConversationView {
        job: job,
        token: token,
        answer: AnswerView { buffer: seq![], pending: seq![], ended: false },
        stage: match job.user_id {
            Some(user_id) => StageView::LookUp { user_id: user_id },
            None => opening(token, job, None),
        },
    }
}

/// The run on a thread.
pub open spec fn running(c: ConversationView, thread_id: Seq<char>) -> StageView {
    StageView::Run {
        thread_id: thread_id,
        request: create_run_request(c.token, thread_id, c.job.config),
    }
}

/// What follows the first request.
pub open spec fn after_opening(c: ConversationView, attempt: Attempt) -> StageView {
    match (c.stage, attempt) {
        (StageView::Ask { thread_id, .. }, Attempt::Answered(_)) => running(c, thread_id),
        (StageView::Ask { .. }, Attempt::Failed) => StageView::Apologise { text: MESSAGE_FAILED@ },
        (StageView::Open { .. }, Attempt::Answered(answer)) => match bytes_tree(answer@) {
            Some(document) => running(c, thread_named(document)),
            None => StageView::Apologise { text: THREAD_FAILED@ },
        },
        (StageView::Open { .. }, Attempt::Failed) => StageView::Apologise { text: THREAD_FAILED@ },
        _ => c.stage,
    }
}

/// What follows the answer: the thread of a known user is remembered.
pub open spec fn remembering(c: ConversationView, thread_id: Seq<char>) -> StageView {
    match c.job.user_id {
        Some(user_id) => StageView::ReadClock { user_id: user_id, thread_id: thread_id },
        None => StageView::Over,
    }
}

/// What follows the stream: what was gathered and not sent is sent.
pub open spec fn finishing(c: ConversationView, thread_id: Seq<char>) -> StageView {
    match remainder(c.answer) {
        Some(text) => StageView::TellRest { thread_id: thread_id, text: text },
        None => remembering(c, thread_id),
    }
}

/// What follows a chunk, or a paragraph that was sent: the next paragraph of the
/// answer, or the next chunk, or the end.
pub open spec fn relaying(
    c: ConversationView,
    thread_id: Seq<char>,
    names: Option<Seq<Seq<char>>>,
) -> ConversationView {
    let (rest, paragraph) = next(c.answer);
    let c = ConversationView { answer: rest, ..c };
    let stage = match paragraph {
        Some(text) => StageView::Tell { thread_id: thread_id, text: cited(text, names) },
        None => if rest.ended {
            finishing(c, thread_id)
        } else {
            StageView::Listen { thread_id: thread_id }
        },
    };
    ConversationView { stage: stage, ..c }
}

/// How a job goes on, where `names` are the names of the bot's files. What was
/// not asked for changes nothing.
pub open spec fn conversation_next(
    c: ConversationView,
    event: Event,
    names: Option<Seq<Seq<char>>>,
) -> ConversationView {
    match (c.stage, event) {
        (StageView::LookUp { .. }, Event::LookedUp(stored, now)) => {
            ConversationView {
                stage: opening(c.token, c.job, resumed(stored.found(), now@)),
                ..c
            }
        },
        (StageView::Ask { .. }, Event::Attempted(attempt)) => {
            ConversationView { stage: after_opening(c, attempt), ..c }
        },
        (StageView::Open { .. }, Event::Attempted(attempt)) => {
            ConversationView { stage: after_opening(c, attempt), ..c }
        },
        (StageView::Run { thread_id, .. }, Event::Started(started)) => {
            ConversationView {
                stage: if started {
                    StageView::Listen { thread_id: thread_id }
                } else {
                    StageView::Apologise { text: RUN_FAILED@ }
                },
                ..c
            }
        },
        (StageView::Listen { thread_id }, Event::Chunk(chunk)) => {
            relaying(ConversationView { answer: fed(c.answer, chunk@), ..c }, thread_id, names)
        },
        (StageView::Listen { thread_id }, Event::StreamOver) => {
            ConversationView { stage: finishing(c, thread_id), ..c }
        },
        (StageView::Listen { thread_id }, Event::TimedOut) => {
            ConversationView { stage: finishing(c, thread_id), ..c }
        },
        (StageView::Tell { thread_id, .. }, Event::Told) => relaying(c, thread_id, names),
        (StageView::Tell { thread_id, .. }, Event::TimedOut) => {
            ConversationView { stage: finishing(c, thread_id), ..c }
        },
        (StageView::TellRest { thread_id, .. }, Event::Told) => {
            ConversationView { stage: remembering(c, thread_id), ..c }
        },
        (StageView::ReadClock { user_id, thread_id }, Event::Clock(now)) => {
            ConversationView {
                stage: StageView::Store {
                    user_id: user_id,
                    context: UserContextView { thread_id: thread_id, last_inquiry: now@ },
                },
                ..c
            }
        },
        (StageView::Store { .. }, Event::Stored) => ConversationView { stage: StageView::Over, ..c },
        (StageView::Apologise { .. }, Event::Told) => {
            ConversationView { stage: StageView::Over, ..c }
        },
        _ => c,
    }
}

fn opening_stage(token: &str, job: &Job, resumed: Option<UserContext>) -> (r: Stage)
    ensures
        match resumed {
            Some(context) => r@ == opening(token@, job@, Some(context@)),
            None => r@ == opening(token@, job@, None),
        },
{
    match (job.user_id, resumed) {
        (Some(_), Some(context)) => {
            let request = create_message(token, context.thread_id.as_str(), job.prompt.as_str());
            Stage::Ask { thread_id: context.thread_id, request }
        },
        _ => Stage::Open { request: create_thread(token, job.prompt.as_str(), &job.config) },
    }
}

impl Conversation {
    /// Starts on a job.
    pub fn start(job: Job, token: String) -> (r: Conversation)
        ensures
            r@ == conversation_start(job@, token@),
    {
        let stage = match job.user_id {
            Some(user_id) => Stage::LookUp { user_id },
            None => opening_stage(token.as_str(), &job, None),
        };
        Conversation { job, token, answer: Answer::new(), stage }
    }

    /// The job.
    pub fn job(&self) -> (r: &Job)
        ensures
            r@ == self@.job,
    {
        &self.job
    }

    /// What is to be done next.
    pub fn stage(&self) -> (r: &Stage)
        ensures
            r@ == self@.stage,
    {
        &self.stage
    }

    fn run_stage(&self, thread_id: String) -> (r: Stage)
        ensures
            r@ == running(self@, thread_id@),
    {
        let request = create_run(self.token.as_str(), thread_id.as_str(), &self.job.config);
        Stage::Run { thread_id, request }
    }

    fn remembering_stage(&self, thread_id: String) -> (r: Stage)
        ensures
            r@ == remembering(self@, thread_id@),
    {
        match self.job.user_id {
            Some(user_id) => Stage::ReadClock { user_id, thread_id },
            None => Stage::Over,
        }
    }

    fn finishing_stage(&self, thread_id: String) -> (r: Stage)
        ensures
            r@ == finishing(self@, thread_id@),
    {
        match self.answer.rest() {
            Some(text) => Stage::TellRest { thread_id, text },
            None => self.remembering_stage(thread_id),
        }
    }

    fn relay(self, thread_id: String, files: &Directory<Vec<String>>) -> (r: Conversation)
        ensures
            r@ == relaying(self@, thread_id@, names_of_bot(files@, self@.job.bot_name)),
    {
        let mut c = self;
        match c.answer.next_reply(c.job.bot_name.as_str(), files) {
            Some(text) => {
                c.stage = Stage::Tell { thread_id, text };
            },
            None => {
                if c.answer.has_ended() {
                    c.stage = c.finishing_stage(thread_id);
                } else {
                    c.stage = Stage::Listen { thread_id };
                }
            },
        }
        c
    }

    /// Goes on with a job.
    pub fn advance(self, event: Event, files: &Directory<Vec<String>>) -> (r: Conversation)
        ensures
            r@ == conversation_next(self@, event, names_of_bot(files@, self@.job.bot_name)),
    {
        let mut c = self;
        let mut stage = Stage::Over;
        std::mem::swap(&mut stage, &mut c.stage);
        match (stage, event) {
            (Stage::LookUp { user_id: _ }, Event::LookedUp(stored, now)) => {
                let resumed = context_to_resume(stored, &now);
                c.stage = opening_stage(c.token.as_str(), &c.job, resumed);
            },
            (Stage::Ask { thread_id, request: _ }, Event::Attempted(attempt)) => match attempt {
                Attempt::Answered(_) => {
                    c.stage = c.run_stage(thread_id);
                },
                Attempt::Failed => {
                    c.stage = Stage::Apologise { text: copy_text(MESSAGE_FAILED) };
                },
            },
            (Stage::Open { request: _ }, Event::Attempted(attempt)) => {
                let thread = match attempt {
                    Attempt::Answered(answer) => created_thread(answer.as_slice()),
                    Attempt::Failed => None,
                };
                match thread {
                    Some(thread_id) => {
                        c.stage = c.run_stage(thread_id);
                    },
                    None => {
                        c.stage = Stage::Apologise { text: copy_text(THREAD_FAILED) };
                    },
                }
            },
            (Stage::Run { thread_id, request: _ }, Event::Started(started)) => {
                if started {
                    c.stage = Stage::Listen { thread_id };
                } else {
                    c.stage = Stage::Apologise { text: copy_text(RUN_FAILED) };
                }
            },
            (Stage::Listen { thread_id }, Event::Chunk(chunk)) => {
                c.answer.feed(chunk.as_slice());
                return c.relay(thread_id, files);
            },
            (Stage::Listen { thread_id }, Event::StreamOver) => {
                c.stage = c.finishing_stage(thread_id);
            },
            (Stage::Listen { thread_id }, Event::TimedOut) => {
                c.stage = c.finishing_stage(thread_id);
            },
            (Stage::Tell { thread_id, text: _ }, Event::Told) => {
                return c.relay(thread_id, files);
            },
            (Stage::Tell { thread_id, text: _ }, Event::TimedOut) => {
                c.stage = c.finishing_stage(thread_id);
            },
            (Stage::TellRest { thread_id, text: _ }, Event::Told) => {
                c.stage = c.remembering_stage(thread_id);
            },
            (Stage::ReadClock { user_id, thread_id }, Event::Clock(now)) => {
                c.stage = Stage::Store {
                    user_id,
                    context: UserContext { thread_id, last_inquiry: now },
                };
            },
            (Stage::Store { user_id: _, context: _ }, Event::Stored) => {
                c.stage = Stage::Over;
            },
            (Stage::Apologise { text: _ }, Event::Told) => {
                c.stage = Stage::Over;
            },
            (stage, _) => {
                c.stage = stage;
            },
        }
        c
    }
}

// ------------------------------------------------------------------------ laws

/// A job after a series of events.
pub open spec fn conversation_run(
    c: ConversationView,
    events: Seq<Event>,
    names: Option<Seq<Seq<char>>>,
) -> ConversationView
    decreases events.len(),
{
    if events.len() == 0 {
        c
    } else {
        conversation_next(conversation_run(c, events.drop_last(), names), events.last(), names)
    }
}

/// The thread that a stage works on.
pub open spec fn thread_of(stage: StageView) -> Option<Seq<char>> {
    match stage {
        StageView::Ask { thread_id, .. } => Some(thread_id),
        StageView::Run { thread_id, .. } => Some(thread_id),
        StageView::Listen { thread_id } => Some(thread_id),
        StageView::Tell { thread_id, .. } => Some(thread_id),
        StageView::TellRest { thread_id, .. } => Some(thread_id),
        StageView::ReadClock { thread_id, .. } => Some(thread_id),
        StageView::Store { context, .. } => Some(context.thread_id),
        _ => None,
    }
}

/// A thread is resumed exactly when the user is known, a context was found, and
/// the user last asked less long ago than threads are kept for; it is then the
/// stored thread, and the question is put to it. In each other case the question
/// opens a thread.
pub proof fn threads_are_resumed_while_fresh(
    job: JobView,
    token: Seq<char>,
    stored: Lookup,
    now: Timestamp,
    names: Option<Seq<Seq<char>>>,
)
    ensures
        ({
            let start = conversation_start(job, token);
            let asking = conversation_next(start, Event::LookedUp(stored, now), names).stage;
            let found = stored.found();
            asking == if job.user_id is Some && found is Some && fresh(found->0, now@) {
                StageView::Ask {
                    thread_id: found->0.thread_id,
                    request: create_message_request(token, found->0.thread_id, job.prompt),
                }
            } else {
                StageView::Open { request: create_thread_request(token, job.prompt, job.config) }
            }
        }),
{
}

/// A job is not changed by its course.
pub proof fn jobs_stay(c: ConversationView, events: Seq<Event>, names: Option<Seq<Seq<char>>>)
    ensures
        conversation_run(c, events, names).job == c.job,
        conversation_run(c, events, names).token == c.token,
    decreases events.len(),
{
    if events.len() > 0 {
        jobs_stay(c, events.drop_last(), names);
    }
}

/// From the moment when the thread of a job is known, each stage works on that
/// thread, up to the context that is stored, unless a step fails or the job is
/// over.
pub proof fn threads_stay(
    c: ConversationView,
    events: Seq<Event>,
    names: Option<Seq<Seq<char>>>,
    thread_id: Seq<char>,
)
    requires
        thread_of(c.stage) == Some(thread_id),
    ensures
        ({
            let stage = conversation_run(c, events, names).stage;
            ||| thread_of(stage) == Some(thread_id)
            ||| stage is Apologise
            ||| stage is Over
        }),
    decreases events.len(),
{
    if events.len() > 0 {
        threads_stay(c, events.drop_last(), names, thread_id);
    }
}

/// A step that fails ends the job: whatever happens then, the user is told of the
/// failure, and nothing is stored.
pub proof fn failures_end_the_job(
    c: ConversationView,
    events: Seq<Event>,
    names: Option<Seq<Seq<char>>>,
)
    requires
        c.stage is Apologise,
    ensures
        ({
            let end = conversation_run(c, events, names);
            end == c || end == (ConversationView { stage: StageView::Over, ..c })
        }),
    decreases events.len(),
{
    if events.len() > 0 {
        failures_end_the_job(c, events.drop_last(), names);
    }
}

/// Whatever happens, a context is looked up or stored only for the user who asks.
pub proof fn only_the_asking_user_is_remembered(
    job: JobView,
    token: Seq<char>,
    events: Seq<Event>,
    names: Option<Seq<Seq<char>>>,
)
    ensures
        match conversation_run(conversation_start(job, token), events, names).stage {
            StageView::LookUp { user_id } => job.user_id == Some(user_id),
            StageView::ReadClock { user_id, .. } => job.user_id == Some(user_id),
            StageView::Store { user_id, .. } => job.user_id == Some(user_id),
            _ => true,
        },
    decreases events.len(),
{
    if events.len() > 0 {
        only_the_asking_user_is_remembered(job, token, events.drop_last(), names);
        jobs_stay(conversation_start(job, token), events.drop_last(), names);
    }
}

/// The texts that are sent one after another, from one that is about to be sent
/// on, as long as nothing else is asked for.
pub open spec fn told_in_turn(c: ConversationView, names: Option<Seq<Seq<char>>>) -> Seq<Seq<char>>
    decreases c.answer.pending.len(), c.answer.buffer.len(),
{
    match c.stage {
        StageView::Tell { text, .. } => {
            let after = conversation_next(c, Event::Told, names);
            if after.stage is Tell {
                proof {
                    lemma_next_is_smaller(c.answer);
                }
                seq![text] + told_in_turn(after, names)
            } else {
                seq![text]
            }
        },
        _ => seq![],
    }
}

/// What is sent after a paragraph are the other paragraphs that can be taken out
/// of the answer, in their order, each with its citations.
pub proof fn paragraphs_are_told_in_turn(c: ConversationView, names: Option<Seq<Seq<char>>>)
    requires
        c.stage is Tell,
    ensures
        told_in_turn(c, names) == seq![c.stage->Tell_text] + taken_out(c.answer).0.map_values(
            |p: Seq<char>| cited(p, names),
        ),
    decreases c.answer.pending.len(), c.answer.buffer.len(),
{
    let f = |p: Seq<char>| cited(p, names);
    let after = conversation_next(c, Event::Told, names);
    let (rest, paragraph) = next(c.answer);
    match paragraph {
        Some(p) => {
            lemma_next_is_smaller(c.answer);
            paragraphs_are_told_in_turn(after, names);
            assert(after.answer == rest);
            assert(taken_out(c.answer).0.map_values(f) =~= seq![cited(p, names)] + taken_out(
                rest,
            ).0.map_values(f));
        },
        None => {
            assert(!(after.stage is Tell));
            assert(taken_out(c.answer).0 =~= seq![]);
            assert(seq![c.stage->Tell_text] + taken_out(c.answer).0.map_values(f) =~= seq![
                c.stage->Tell_text,
            ]);
        },
    }
}

/// A job starts as it was given, with nothing heard: where the user is known, by
/// looking up what is stored of that user, and else by opening a thread with the
/// question.
pub proof fn jobs_start_as_they_were_given(job: JobView, token: Seq<char>)
    ensures
        ({
            let c = conversation_start(job, token);
            &&& c.job == job
            &&& c.token == token
            &&& c.answer == AnswerView { buffer: seq![], pending: seq![], ended: false }
            &&& match job.user_id {
                Some(user_id) => c.stage == (StageView::LookUp { user_id: user_id }),
                None => c.stage == (StageView::Open {
                    request: create_thread_request(token, job.prompt, job.config),
                }),
            }
        }),
{
}

/// The thread that the answer of the service names by its `id`, among whatever
/// other members, is the one on which the run is started, with the assistant of
/// the bot. An answer that is no document, and a request that did not get through,
/// are told to the user.
pub proof fn opened_threads_are_run(
    c: ConversationView,
    answer: Vec<u8>,
    names: Option<Seq<Seq<char>>>,
)
    requires
        c.stage is Open,
    ensures
        ({
            let failed = StageView::Apologise { text: "Error creating thread"@ };
            let after = conversation_next(
                c,
                Event::Attempted(Attempt::Answered(answer)),
                names,
            ).stage;
            &&& conversation_next(c, Event::Attempted(Attempt::Failed), names).stage == failed
            &&& bytes_tree(answer@) is None ==> after == failed
            &&& bytes_tree(answer@) matches Some(document) ==> {
                let id = match member(document, "id"@) {
                    Some(JsonView::Text(id)) => id,
                    _ => Seq::empty(),
                };
                after == (StageView::Run {
                    thread_id: id,
                    request: create_run_request(c.token, id, c.job.config),
                })
            }
        }),
{
    if let Some(document) = bytes_tree(answer@) {
        threads_are_named_by_their_id(document);
    }
}

/// A question that reached its thread is followed by a run on that thread, with the
/// assistant of the bot; a run that was started is listened to. What did not get
/// through is told to the user.
pub proof fn questions_are_run_on_their_thread(
    c: ConversationView,
    thread_id: Seq<char>,
    request: RequestView,
    answer: Vec<u8>,
    names: Option<Seq<Seq<char>>>,
)
    ensures
        ({
            let asking = ConversationView {
                stage: StageView::Ask { thread_id: thread_id, request: request },
                ..c
            };
            let running = ConversationView {
                stage: StageView::Run { thread_id: thread_id, request: request },
                ..c
            };
            &&& conversation_next(asking, Event::Attempted(Attempt::Answered(answer)), names)
                == ConversationView {
                stage: StageView::Run {
                    thread_id: thread_id,
                    request: create_run_request(c.token, thread_id, c.job.config),
                },
                ..c
            }
            &&& conversation_next(asking, Event::Attempted(Attempt::Failed), names)
                == ConversationView {
                stage: StageView::Apologise { text: "Error creating message"@ },
                ..c
            }
            &&& conversation_next(running, Event::Started(true), names) == ConversationView {
                stage: StageView::Listen { thread_id: thread_id },
                ..c
            }
            &&& conversation_next(running, Event::Started(false), names) == ConversationView {
                stage: StageView::Apologise { text: "Error creating run"@ },
                ..c
            }
        }),
{
}

/// When the stream closes or the time is up, all that was gathered and not sent is
/// sent, as it stands but for the white space around it; where that is nothing, the
/// thread of a known user is remembered at once.
pub proof fn what_was_gathered_is_sent_at_the_end(
    c: ConversationView,
    thread_id: Seq<char>,
    text: Seq<char>,
    names: Option<Seq<Seq<char>>>,
)
    ensures
        ({
            let listening = ConversationView {
                stage: StageView::Listen { thread_id: thread_id },
                ..c
            };
            let telling = ConversationView {
                stage: StageView::Tell { thread_id: thread_id, text: text },
                ..c
            };
            let rest = trimmed(c.answer.buffer);
            let end = ConversationView {
                stage: if rest.len() > 0 {
                    StageView::TellRest { thread_id: thread_id, text: rest }
                } else {
                    match c.job.user_id {
                        Some(user_id) => StageView::ReadClock {
                            user_id: user_id,
                            thread_id: thread_id,
                        },
                        None => StageView::Over,
                    }
                },
                ..c
            };
            &&& conversation_next(listening, Event::StreamOver, names) == end
            &&& conversation_next(listening, Event::TimedOut, names) == end
            &&& conversation_next(telling, Event::TimedOut, names) == end
        }),
{
}

/// The next paragraph that can be taken out of the answer is sent with its
/// citations, after a chunk has been taken in and after each paragraph that was
/// sent. Where there is none, the next chunk is waited for, unless the end of the
/// answer was heard.
pub proof fn the_next_paragraph_is_sent(
    c: ConversationView,
    thread_id: Seq<char>,
    text: Seq<char>,
    chunk: Vec<u8>,
    names: Option<Seq<Seq<char>>>,
)
    ensures
        ({
            let listening = ConversationView {
                stage: StageView::Listen { thread_id: thread_id },
                ..c
            };
            let telling = ConversationView {
                stage: StageView::Tell { thread_id: thread_id, text: text },
                ..c
            };
            let heard = conversation_next(listening, Event::Chunk(chunk), names);
            let told = conversation_next(telling, Event::Told, names);
            &&& heard.answer == next(fed(c.answer, chunk@)).0
            &&& told.answer == next(c.answer).0
            &&& next(fed(c.answer, chunk@)).1 matches Some(p) ==> heard.stage
                == (StageView::Tell { thread_id: thread_id, text: cited(p, names) })
            &&& next(c.answer).1 matches Some(p) ==> told.stage == (StageView::Tell {
                thread_id: thread_id,
                text: cited(p, names),
            })
            &&& next(fed(c.answer, chunk@)).1 is None && !heard.answer.ended ==> heard.stage
                == (StageView::Listen { thread_id: thread_id })
            &&& next(c.answer).1 is None && !told.answer.ended ==> told.stage
                == (StageView::Listen { thread_id: thread_id })
        }),
{
}

/// After the answer, the thread of a known user is stored for that user with the
/// time that was read, and then the job is over. A job without a known user is over
/// after the answer, and so is one whose failure was told.
pub proof fn threads_are_remembered_with_the_time(
    c: ConversationView,
    thread_id: Seq<char>,
    text: Seq<char>,
    user_id: i64,
    context: UserContextView,
    now: Timestamp,
    names: Option<Seq<Seq<char>>>,
)
    ensures
        ({
            let finishing = ConversationView {
                stage: StageView::TellRest { thread_id: thread_id, text: text },
                ..c
            };
            let reading = ConversationView {
                stage: StageView::ReadClock { user_id: user_id, thread_id: thread_id },
                ..c
            };
            let storing = ConversationView {
                stage: StageView::Store { user_id: user_id, context: context },
                ..c
            };
            let apologising = ConversationView {
                stage: StageView::Apologise { text: text },
                ..c
            };
            let over = ConversationView { stage: StageView::Over, ..c };
            &&& c.job.user_id is None ==> conversation_next(finishing, Event::Told, names) == over
            &&& c.job.user_id matches Some(id) ==> conversation_next(finishing, Event::Told, names)
                == (ConversationView {
                stage: StageView::ReadClock { user_id: id, thread_id: thread_id },
                ..c
            })
            &&& conversation_next(reading, Event::Clock(now), names) == ConversationView {
                stage: StageView::Store {
                    user_id: user_id,
                    context: UserContextView { thread_id: thread_id, last_inquiry: now@ },
                },
                ..c
            }
            &&& conversation_next(storing, Event::Stored, names) == over
            &&& conversation_next(apologising, Event::Told, names) == over
        }),
{
}

/// A job that is over stays so, whatever happens.
pub proof fn jobs_stay_over(
    c: ConversationView,
    events: Seq<Event>,
    names: Option<Seq<Seq<char>>>,
)
    requires
        c.stage is Over,
    ensures
        conversation_run(c, events, names) == c,
    decreases events.len(),
{
    if events.len() > 0 {
        jobs_stay_over(c, events.drop_last(), names);
    }
}

/// A stage shows what it holds.
pub proof fn stages_of_a_job_show_what_they_hold(s: Stage)
    ensures
        match s {
            Stage::LookUp { user_id } => s@ == (StageView::LookUp { user_id: user_id }),
            Stage::Ask { thread_id, request } => s@ == (StageView::Ask {
                thread_id: thread_id@,
                request: request@,
            }),
            Stage::Open { request } => s@ == (StageView::Open { request: request@ }),
            Stage::Run { thread_id, request } => s@ == (StageView::Run {
                thread_id: thread_id@,
                request: request@,
            }),
            Stage::Listen { thread_id } => s@ == (StageView::Listen { thread_id: thread_id@ }),
            Stage::Tell { thread_id, text } => s@ == (StageView::Tell {
                thread_id: thread_id@,
                text: text@,
            }),
            Stage::TellRest { thread_id, text } => s@ == (StageView::TellRest {
                thread_id: thread_id@,
                text: text@,
            }),
            Stage::ReadClock { user_id, thread_id } => s@ == (StageView::ReadClock {
                user_id: user_id,
                thread_id: thread_id@,
            }),
            Stage::Store { user_id, context } => s@ == (StageView::Store {
                user_id: user_id,
                context: context@,
            }),
            Stage::Apologise { text } => s@ == (StageView::Apologise { text: text@ }),
            Stage::Over => s@ == StageView::Over,
        },
{
}

} // verus!
