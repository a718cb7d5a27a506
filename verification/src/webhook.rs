//! The answering of a report that the chat service delivers.
//!
//! A delivery is answered in stages. Its path names a bot or is refused; its body
//! is received or refused; what it reports is a job for the assistant or needs
//! nothing. Whatever is not refused is answered with `200 OK`. What a stage asks
//! for is done outside; the event that is handed back leads to the next stage.

use crate::config::BotConfig;
use crate::config::BotConfigView;
use crate::context::contexts_are_kept_for_ten_minutes;
use crate::context::is_to_be_removed;
use crate::context::kept;
use crate::context::Lookup;
use crate::context::Timestamp;
use crate::context::UserContext;
use crate::directory::Directory;
use crate::telegram::webhook_path;
use crate::telegram::Message;
use crate::telegram::Update;
use crate::text::chars_of;
use crate::text::copy_text;
use crate::text::find;
use crate::text::lemma_find;
use crate::text::pieces;
use crate::text::same_chars;
use crate::text::split;
use crate::text::split_at_each;
use crate::text::starts_with;
use crate::text::string_of;
use crate::text::trim_of;
use crate::text::trimmed_of;
use crate::text::trimming_takes_off_a_character;
use vstd::prelude::*;

verus! {

/// An answer to a delivery.
#[derive(Debug)]
pub struct Reply {
    pub status: u16,
    pub body: String,
}

/// An answer to a delivery, mathematically.
pub struct ReplyView {
    pub status: u16,
    pub body: Seq<char>,
}

impl View for Reply {
    type V = ReplyView;

    open spec fn view(&self) -> ReplyView {
        ReplyView { status: self.status, body: self.body@ }
    }
}

/// The answer to a delivery whose path is not that of a webhook.
pub open spec fn not_found() -> ReplyView {
    ReplyView { status: 404, body: "Not Found"@ }
}

/// The answer to a delivery for a bot that is not known.
pub open spec fn bot_not_found() -> ReplyView {
    ReplyView { status: 404, body: "Bot not found"@ }
}

/// The answer to a delivery that cannot be read.
pub open spec fn bad_request() -> ReplyView {
    ReplyView { status: 400, body: "Bad Request"@ }
}

/// The answer to a delivery that is not refused.
pub open spec fn acknowledgement() -> ReplyView {
    ReplyView { status: 200, body: "OK"@ }
}

fn reply(status: u16, body: &str) -> (r: Reply)
    ensures
        r@ == (ReplyView { status: status, body: body@ }),
{
    Reply { status, body: copy_text(body) }
}

// ------------------------------------------------------------------- the path

/// The segment that follows the name of the bot in a path.
pub const HOOK: &'static str = "webhook";

/// The segments of a path, without regard to slashes around it.
pub open spec fn segments(path: Seq<char>) -> Seq<Seq<char>> {
    split(trimmed_of(path, '/'), seq!['/'])
}

/// The bot that a path is for: its first segment, where the second says that it
/// is a delivery.
pub open spec fn addressed_bot(path: Seq<char>) -> Option<Seq<char>> {
    let s = segments(path);
    if s.len() >= 2 && s[1] == HOOK@ {
        Some(s[0])
    } else {
        None
    }
}

/// The bot that a path is for.
pub fn route(path: &str) -> (r: Option<String>)
    ensures
        match r {
            Some(name) => addressed_bot(path@) == Some(name@),
            None => addressed_bot(path@) is None,
        },
{
    let all = chars_of(path);
    let slash: Vec<char> = vec!['/'];
    assert(slash@ =~= seq!['/']);
    let parts = split_at_each(trim_of(all.as_slice(), '/'), slash.as_slice());
    assert(pieces(parts@) == segments(path@));
    if parts.len() < 2 {
        return None;
    }
    assert(segments(path@)[1] == parts@[1]@);
    assert(segments(path@)[0] == parts@[0]@);
    if same_chars(parts[1], chars_of(HOOK).as_slice()) {
        Some(string_of(parts[0]))
    } else {
        None
    }
}

/// A name without slashes is found in front of a slash.
proof fn lemma_split_off(name: Seq<char>, rest: Seq<char>)
    requires
        !name.contains('/'),
    ensures
        find(name + seq!['/'] + rest, seq!['/']) == Some(name.len() as int),
        split(name + seq!['/'] + rest, seq!['/']) == seq![name] + split(rest, seq!['/']),
{
    let s = name + seq!['/'] + rest;
    let slash = seq!['/'];
    lemma_find(s, slash);
    let n = name.len() as int;
    assert(s.skip(n).take(1) =~= slash);
    assert(starts_with(s.skip(n), slash));
    if let Some(i) = find(s, slash) {
        if i < n {
            assert(s.subrange(i, i + 1)[0] == name[i]);
            assert(name.contains(name[i]));
        }
        assert(i == n);
    }
    assert(s.take(n) =~= name);
    assert(s.skip(n + 1) =~= rest);
}

/// A text without slashes is one segment.
proof fn lemma_no_slash(s: Seq<char>)
    requires
        !s.contains('/'),
    ensures
        split(s, seq!['/']) == seq![s],
{
    let slash = seq!['/'];
    lemma_find(s, slash);
    if let Some(i) = find(s, slash) {
        assert(s.subrange(i, i + 1)[0] == s[i]);
        assert(s.contains('/'));
    }
}

/// The path that is registered for a bot leads to that bot, for each name that
/// is not empty and holds no slash.
pub proof fn registered_path_leads_to_its_bot(bot_name: Seq<char>)
    requires
        bot_name.len() > 0,
        !bot_name.contains('/'),
    ensures
        addressed_bot(webhook_path(bot_name)) == Some(bot_name),
{
    reveal_strlit("/");
    reveal_strlit("/webhook");
    reveal_strlit("webhook");
    let path = webhook_path(bot_name);
    let inner = bot_name + seq!['/'] + HOOK@;
    assert(path.drop_first() =~= inner);
    assert(path.first() == '/');
    assert(bot_name.contains(bot_name[0]));
    assert(inner.first() == bot_name[0]);
    assert(inner.last() == 'k');
    assert(trimmed_of(inner, '/') == inner);
    assert(trimmed_of(path, '/') == inner);
    lemma_split_off(bot_name, HOOK@);
    assert(!HOOK@.contains('/')) by {
        if HOOK@.contains('/') {
            let i = choose|i: int| 0 <= i < HOOK@.len() && HOOK@[i] == '/';
            assert(HOOK@[i] == '/');
        }
    }
    lemma_no_slash(HOOK@);
    assert(segments(path) =~= seq![bot_name, HOOK@]);
}

// ------------------------------------------------------------------ the stages

/// A message that the assistant is to answer.
#[derive(Debug)]
pub struct Job {
    pub chat_id: i64,
    pub prompt: String,
    /// Who asks, where that is known.
    pub user_id: Option<i64>,
    pub bot_name: String,
    pub config: BotConfig,
}

/// A message that the assistant is to answer, mathematically.
pub struct JobView {
    pub chat_id: i64,
    pub prompt: Seq<char>,
    pub user_id: Option<i64>,
    pub bot_name: Seq<char>,
    pub config: BotConfigView,
}

impl View for Job {
    type V = JobView;

    open spec fn view(&self) -> JobView {
        JobView {
            chat_id: self.chat_id,
            prompt: self.prompt@,
            user_id: self.user_id,
            bot_name: self.bot_name@,
            config: self.config@,
        }
    }
}

impl Clone for Job {
    fn clone(&self) -> (r: Self)
        ensures
            r@ == self@,
    {
        Job {
            chat_id: self.chat_id,
            prompt: self.prompt.clone(),
            user_id: self.user_id,
            bot_name: self.bot_name.clone(),
            config: self.config.clone(),
        }
    }
}

/// How far the answering of a delivery has come.
#[derive(Debug)]
pub enum Intake {
    /// The body is to be received, for this bot.
    Receive { bot_name: String, config: BotConfig },
    /// The stored context of this user is to be looked up.
    LookUp { user_id: i64, job: Job },
    /// The stored context of this user is to be removed.
    Remove { user_id: i64, job: Job },
    /// The job is to be started.
    Launch { job: Job },
    /// The delivery is to be answered.
    Respond { reply: Reply },
}

/// How far the answering of a delivery has come, mathematically.
pub enum IntakeView {
    Receive { bot_name: Seq<char>, config: BotConfigView },
    LookUp { user_id: i64, job: JobView },
    Remove { user_id: i64, job: JobView },
    Launch { job: JobView },
    Respond { reply: ReplyView },
}

impl View for Intake {
    type V = IntakeView;

    open spec fn view(&self) -> IntakeView {
        match self {
            Intake::Receive { bot_name, config } => IntakeView::Receive {
                bot_name: bot_name@,
                config: config@,
            },
            Intake::LookUp { user_id, job } => IntakeView::LookUp { user_id: *user_id, job: job@ },
            Intake::Remove { user_id, job } => IntakeView::Remove { user_id: *user_id, job: job@ },
            Intake::Launch { job } => IntakeView::Launch { job: job@ },
            Intake::Respond { reply } => IntakeView::Respond { reply: reply@ },
        }
    }
}

/// What became of reading the body of a delivery.
#[derive(Debug)]
pub enum Delivery {
    /// The body did not arrive.
    Unreadable,
    /// The body is no report.
    Malformed,
    Report(Update),
}

/// What was done for a delivery.
#[derive(Debug)]
pub enum IntakeEvent {
    Received(Delivery),
    LookedUp(Lookup, Timestamp),
    Removed,
    Launched,
}

/// The sender of a reported message.
pub open spec fn sender(message: Message) -> Option<i64> {
    match message.from {
        Some(user) => Some(user.id),
        None => None,
    }
}

/// Where the answering of a delivery starts: at the receiving of its body, or at
/// a refusal.
pub open spec fn intake_start(path: Seq<char>, bots: Map<Seq<char>, BotConfig>) -> IntakeView {
    match addressed_bot(path) {
        Some(name) => if bots.contains_key(name) {
            IntakeView::Receive { bot_name: name, config: bots[name]@ }
        } else {
            IntakeView::Respond { reply: bot_not_found() }
        },
        None => IntakeView::Respond { reply: not_found() },
    }
}

/// What follows the receiving of the body: a message with a text is a job, and
/// where its sender is known, the stored context is looked at first.
pub open spec fn after_delivery(
    bot_name: Seq<char>,
    config: BotConfigView,
    delivery: Delivery,
) -> IntakeView {
    match delivery {
        Delivery::Report(update) => match update.message {
            Some(message) => match message.text {
                Some(text) => {
                    let job = JobView {
                        chat_id: message.chat.id,
                        prompt: text@,
                        user_id: sender(message),
                        bot_name: bot_name,
                        config: config,
                    };
                    match sender(message) {
                        Some(user_id) => IntakeView::LookUp { user_id: user_id, job: job },
                        None => IntakeView::Launch { job: job },
                    }
                },
                None => IntakeView::Respond { reply: acknowledgement() },
            },
            None => IntakeView::Respond { reply: acknowledgement() },
        },
        _ => IntakeView::Respond { reply: bad_request() },
    }
}

/// How the answering of a delivery goes on. What was not asked for changes
/// nothing.
pub open spec fn intake_next(at: IntakeView, event: IntakeEvent) -> IntakeView {
    match (at, event) {
        (IntakeView::Receive { bot_name, config }, IntakeEvent::Received(delivery)) => {
            after_delivery(bot_name, config, delivery)
        },
        (IntakeView::LookUp { user_id, job }, IntakeEvent::LookedUp(stored, now)) => {
            if stored.found() is Some && kept(stored.found(), now@) is None {
                IntakeView::Remove { user_id: user_id, job: job }
            } else {
                IntakeView::Launch { job: job }
            }
        },
        (IntakeView::Remove { user_id, job }, IntakeEvent::Removed) => {
            IntakeView::Launch { job: job }
        },
        (IntakeView::Launch { job }, IntakeEvent::Launched) => {
            IntakeView::Respond { reply: acknowledgement() }
        },
        _ => at,
    }
}

impl Intake {
    /// Starts to answer a delivery.
    pub fn start(path: &str, bots: &Directory<BotConfig>) -> (r: Intake)
        ensures
            r@ == intake_start(path@, bots@),
    {
        match route(path) {
            Some(bot_name) => match bots.get(bot_name.as_str()) {
                Some(config) => {
                    let config = config.clone();
                    Intake::Receive { bot_name, config }
                },
                None => Intake::Respond { reply: reply(404, "Bot not found") },
            },
            None => Intake::Respond { reply: reply(404, "Not Found") },
        }
    }

    fn received(bot_name: String, config: BotConfig, delivery: Delivery) -> (r: Intake)
        ensures
            r@ == after_delivery(bot_name@, config@, delivery),
    {
        let update = match delivery {
            Delivery::Report(update) => update,
            _ => {
                return Intake::Respond { reply: reply(400, "Bad Request") };
            },
        };
        if let Some(message) = update.message {
            let user_id: Option<i64> = match message.from {
                Some(user) => Some(user.id),
                None => None,
            };
            if let Some(prompt) = message.text {
                let job = Job { chat_id: message.chat.id, prompt, user_id, bot_name, config };
                return match user_id {
                    Some(user_id) => Intake::LookUp { user_id, job },
                    None => Intake::Launch { job },
                };
            }
        }
        Intake::Respond { reply: reply(200, "OK") }
    }

    /// Goes on with the answering of a delivery.
    pub fn advance(self, event: IntakeEvent) -> (r: Intake)
        ensures
            r@ == intake_next(self@, event),
    {
        match (self, event) {
            (Intake::Receive { bot_name, config }, IntakeEvent::Received(delivery)) => {
                Intake::received(bot_name, config, delivery)
            },
            (Intake::LookUp { user_id, job }, IntakeEvent::LookedUp(stored, now)) => {
                if is_to_be_removed(&stored, &now) {
                    Intake::Remove { user_id, job }
                } else {
                    Intake::Launch { job }
                }
            },
            (Intake::Remove { user_id: _, job }, IntakeEvent::Removed) => Intake::Launch { job },
            (Intake::Launch { job: _ }, IntakeEvent::Launched) => {
                Intake::Respond { reply: reply(200, "OK") }
            },
            (at, _) => at,
        }
    }
}

// ------------------------------------------------------------------------ laws

/// The stages that follow a series of events.
pub open spec fn intake_run(at: IntakeView, events: Seq<IntakeEvent>) -> IntakeView
    decreases events.len(),
{
    if events.len() == 0 {
        at
    } else {
        intake_next(intake_run(at, events.drop_last()), events.last())
    }
}

/// An answer is final: once a delivery is to be answered, nothing that happens
/// changes the answer.
pub proof fn answers_are_final(reply: ReplyView, events: Seq<IntakeEvent>)
    ensures
        intake_run(IntakeView::Respond { reply: reply }, events) == (IntakeView::Respond {
            reply: reply,
        }),
    decreases events.len(),
{
    if events.len() > 0 {
        answers_are_final(reply, events.drop_last());
    }
}

/// A delivery for a path that is not that of a webhook, or for a bot that is not
/// known, is answered with 404 whatever it carries.
pub proof fn unknown_paths_are_refused(
    path: Seq<char>,
    bots: Map<Seq<char>, BotConfig>,
    events: Seq<IntakeEvent>,
)
    requires
        addressed_bot(path) is None || !bots.contains_key(addressed_bot(path)->0),
    ensures
        intake_run(intake_start(path, bots), events) == (IntakeView::Respond {
            reply: if addressed_bot(path) is None {
                not_found()
            } else {
                bot_not_found()
            },
        }),
{
    answers_are_final(
        if addressed_bot(path) is None {
            not_found()
        } else {
            bot_not_found()
        },
        events,
    );
}

/// Whatever happens, a delivery is answered in one of four ways.
pub proof fn answers_are_known(
    path: Seq<char>,
    bots: Map<Seq<char>, BotConfig>,
    events: Seq<IntakeEvent>,
)
    ensures
        intake_run(intake_start(path, bots), events) matches IntakeView::Respond { reply } ==> {
            ||| reply == not_found()
            ||| reply == bot_not_found()
            ||| reply == bad_request()
            ||| reply == acknowledgement()
        },
    decreases events.len(),
{
    if events.len() > 0 {
        answers_are_known(path, bots, events.drop_last());
    }
}

/// A report of a message with a text is answered with 200 once its job has been
/// launched, and the job is that message: whoever sent it, whatever was stored.
pub proof fn messages_are_launched_and_acknowledged(
    bot_name: Seq<char>,
    config: BotConfigView,
    update: Update,
    stored: Lookup,
    now: Timestamp,
)
    requires
        update.message is Some,
        update.message->0.text is Some,
    ensures
        ({
            let message = update.message->0;
            let job = JobView {
                chat_id: message.chat.id,
                prompt: message.text->0@,
                user_id: sender(message),
                bot_name: bot_name,
                config: config,
            };
            let looked_up = intake_next(
                intake_next(
                    IntakeView::Receive { bot_name: bot_name, config: config },
                    IntakeEvent::Received(Delivery::Report(update)),
                ),
                IntakeEvent::LookedUp(stored, now),
            );
            let launching = intake_next(looked_up, IntakeEvent::Removed);
            &&& launching == IntakeView::Launch { job: job }
            &&& intake_next(launching, IntakeEvent::Launched) == IntakeView::Respond {
                reply: acknowledgement(),
            }
        }),
{
}

/// A path is for the bot that its first segment names, exactly when its second
/// segment is `webhook`, whatever follows and whatever slashes stand around it.
pub proof fn paths_are_routed_by_their_segments(
    before: Seq<char>,
    name: Seq<char>,
    second: Seq<char>,
    more: Option<Seq<char>>,
    after: Seq<char>,
)
    requires
        forall|i: int| 0 <= i < before.len() ==> #[trigger] before[i] == '/',
        forall|i: int| 0 <= i < after.len() ==> #[trigger] after[i] == '/',
        name.len() > 0,
        !name.contains('/'),
        !second.contains('/'),
        more is None ==> second.len() > 0,
        more matches Some(rest) ==> rest.len() > 0 && rest.last() != '/',
    ensures
        ({
            let end = match more {
                Some(rest) => seq!['/'] + rest,
                None => seq![],
            };
            addressed_bot(before + (name + seq!['/'] + second + end) + after) == if second
                == "webhook"@ {
                Some(name)
            } else {
                None
            }
        }),
{
    let slash = seq!['/'];
    let end = match more {
        Some(rest) => slash + rest,
        None => seq![],
    };
    let inner = name + slash + second + end;
    assert(name.contains(name[0]));
    assert(inner.first() == name[0]);
    assert(inner.last() != '/') by {
        match more {
            Some(rest) => {
                assert(inner.last() == rest.last());
            },
            None => {
                assert(second.contains(second[second.len() - 1]));
                assert(inner.last() == second[second.len() - 1]);
            },
        }
    }
    trimming_takes_off_a_character(before, inner, after, '/');
    let tail = second + end;
    assert(inner =~= name + slash + tail);
    lemma_split_off(name, tail);
    match more {
        Some(rest) => {
            assert(tail =~= second + slash + rest);
            lemma_split_off(second, rest);
        },
        None => {
            assert(tail =~= second);
            lemma_no_slash(second);
        },
    }
    assert(split(inner, slash)[0] == name);
    assert(split(inner, slash)[1] == second);
}

/// A path of one segment, or of none, is for no bot.
pub proof fn short_paths_are_for_no_bot(before: Seq<char>, name: Seq<char>, after: Seq<char>)
    requires
        forall|i: int| 0 <= i < before.len() ==> #[trigger] before[i] == '/',
        forall|i: int| 0 <= i < after.len() ==> #[trigger] after[i] == '/',
        !name.contains('/'),
    ensures
        addressed_bot(before + name + after) is None,
{
    if name.len() > 0 {
        assert(name.contains(name[0]));
        assert(name.contains(name[name.len() - 1]));
    }
    trimming_takes_off_a_character(before, name, after, '/');
    lemma_no_slash(name);
}

/// A delivery for a known bot is received with the configuration of that bot, each
/// of its fields as it stands in the table.
pub proof fn deliveries_are_received_with_the_configuration_of_their_bot(
    path: Seq<char>,
    bots: Map<Seq<char>, BotConfig>,
    name: Seq<char>,
)
    requires
        addressed_bot(path) == Some(name),
        bots.contains_key(name),
    ensures
        intake_start(path, bots) == (IntakeView::Receive {
            bot_name: name,
            config: BotConfigView {
                bot_name: bots[name].bot_name@,
                telegram_bot_token: bots[name].telegram_bot_token@,
                telegram_secret_token: bots[name].telegram_secret_token@,
                openai_assistant_id: bots[name].openai_assistant_id@,
                vector_store_id: bots[name].vector_store_id@,
            },
        }),
{
}

/// A delivery is refused with 404 where its path is for no bot or for an unknown
/// one.
pub proof fn refusals_say_what_is_not_found(path: Seq<char>, bots: Map<Seq<char>, BotConfig>)
    ensures
        addressed_bot(path) is None ==> intake_start(path, bots) == (IntakeView::Respond {
            reply: ReplyView { status: 404, body: "Not Found"@ },
        }),
        addressed_bot(path) matches Some(name) ==> !bots.contains_key(name) ==> intake_start(
            path,
            bots,
        ) == (IntakeView::Respond { reply: ReplyView { status: 404, body: "Bot not found"@ } }),
{
}

/// A body that did not arrive or is no report is refused with 400; a report
/// without a message, or with a message without a text, is acknowledged with 200
/// and starts no job.
pub proof fn reports_without_a_text_start_no_job(
    bot_name: Seq<char>,
    config: BotConfigView,
    update: Update,
)
    requires
        update.message matches Some(message) ==> message.text is None,
    ensures
        ({
            let at = IntakeView::Receive { bot_name: bot_name, config: config };
            let refused = IntakeView::Respond {
                reply: ReplyView { status: 400, body: "Bad Request"@ },
            };
            &&& intake_next(at, IntakeEvent::Received(Delivery::Unreadable)) == refused
            &&& intake_next(at, IntakeEvent::Received(Delivery::Malformed)) == refused
            &&& intake_next(at, IntakeEvent::Received(Delivery::Report(update)))
                == IntakeView::Respond { reply: ReplyView { status: 200, body: "OK"@ } }
        }),
{
}

/// A message with a text is a job with that text as a whole, for its chat, its
/// sender and the bot that received it. Where the sender is known, the stored
/// context is looked up first.
pub proof fn messages_become_jobs(
    bot_name: Seq<char>,
    config: BotConfigView,
    update: Update,
)
    requires
        update.message is Some,
        update.message->0.text is Some,
    ensures
        ({
            let message = update.message->0;
            let next = intake_next(
                IntakeView::Receive { bot_name: bot_name, config: config },
                IntakeEvent::Received(Delivery::Report(update)),
            );
            match message.from {
                Some(user) => next == (IntakeView::LookUp {
                    user_id: user.id,
                    job: JobView {
                        chat_id: message.chat.id,
                        prompt: message.text->0@,
                        user_id: Some(user.id),
                        bot_name: bot_name,
                        config: config,
                    },
                }),
                None => next == (IntakeView::Launch {
                    job: JobView {
                        chat_id: message.chat.id,
                        prompt: message.text->0@,
                        user_id: None,
                        bot_name: bot_name,
                        config: config,
                    },
                }),
            }
        }),
{
}

/// Outside leap seconds, what is stored of the sender is removed exactly when the
/// sender last asked more than ten minutes ago; then, or else at once, the job is
/// launched, and then the delivery is acknowledged with 200.
pub proof fn jobs_are_launched_after_the_sweep(
    user_id: i64,
    job: JobView,
    stored: UserContext,
    now: Timestamp,
)
    requires
        0 <= now@.nanos < 1000000000,
        0 <= stored.last_inquiry@.nanos < 1000000000,
    ensures
        ({
            let at = IntakeView::LookUp { user_id: user_id, job: job };
            let launch = IntakeView::Launch { job: job };
            let age = (now@.secs * 1000000000 + now@.nanos) - (stored.last_inquiry@.secs
                * 1000000000 + stored.last_inquiry@.nanos);
            &&& intake_next(at, IntakeEvent::LookedUp(Lookup::Missing, now)) == launch
            &&& intake_next(at, IntakeEvent::LookedUp(Lookup::Failed, now)) == launch
            &&& intake_next(at, IntakeEvent::LookedUp(Lookup::Found(stored), now)) == if age
                > 600000000000 {
                IntakeView::Remove { user_id: user_id, job: job }
            } else {
                launch
            }
            &&& intake_next(
                IntakeView::Remove { user_id: user_id, job: job },
                IntakeEvent::Removed,
            ) == launch
            &&& intake_next(launch, IntakeEvent::Launched) == IntakeView::Respond {
                reply: ReplyView { status: 200, body: "OK"@ },
            }
        }),
{
    contexts_are_kept_for_ten_minutes(stored@, now@);
}

/// A stage shows what it holds, and a job and an answer each of their fields.
pub proof fn stages_show_what_they_hold(at: Intake, job: Job, reply: Reply)
    ensures
        match at {
            Intake::Receive { bot_name, config } => at@ == (IntakeView::Receive {
                bot_name: bot_name@,
                config: config@,
            }),
            Intake::LookUp { user_id, job } => at@ == (IntakeView::LookUp {
                user_id: user_id,
                job: job@,
            }),
            Intake::Remove { user_id, job } => at@ == (IntakeView::Remove {
                user_id: user_id,
                job: job@,
            }),
            Intake::Launch { job } => at@ == (IntakeView::Launch { job: job@ }),
            Intake::Respond { reply } => at@ == (IntakeView::Respond { reply: reply@ }),
        },
        reply@.status == reply.status,
        reply@.body == reply.body@,
        job@.chat_id == job.chat_id,
        job@.prompt == job.prompt@,
        job@.user_id == job.user_id,
        job@.bot_name == job.bot_name@,
        job@.config == job.config@,
{
}

} // verus!
