//! What is remembered of a user between messages.

use crate::decimal::integer;
use crate::decimal::integer_is_injective;
use crate::decimal::integer_text;
use vstd::prelude::*;

verus! {

/// The first second that the calendar covers, counted from the start of 1970.
pub const FIRST_SECOND: i64 = -8334601228800;

/// The last second that the calendar covers.
pub const LAST_SECOND: i64 = 8210266876799;

/// The nanoseconds of a second.
pub const SECOND: u32 = 1000000000;

/// A point in time in UTC: whole seconds since the start of 1970, and
/// nanoseconds. In a leap second the nanoseconds go on past one second.
#[derive(Clone, Copy, Debug)]
pub struct Timestamp {
    secs: i64,
    nanos: u32,
}

/// A point in time, mathematically.
pub struct Moment {
    pub secs: int,
    pub nanos: int,
}

/// A point in time that the calendar covers. A leap second follows the last
/// second of a minute.
pub open spec fn is_moment(secs: int, nanos: int) -> bool {
    &&& FIRST_SECOND <= secs <= LAST_SECOND
    &&& 0 <= nanos < 2 * SECOND
    &&& nanos >= SECOND ==> secs % 60 == 59
}

impl View for Timestamp {
    type V = Moment;

    closed spec fn view(&self) -> Moment {
        Moment { secs: self.secs as int, nanos: self.nanos as int }
    }
}

impl Timestamp {
    #[verifier::type_invariant]
    spec fn covered(self) -> bool {
        is_moment(self.secs as int, self.nanos as int)
    }

    /// The point in time with these seconds and nanoseconds, where there is one.
    pub fn new(secs: i64, nanos: u32) -> (r: Option<Timestamp>)
        ensures
            match r {
                Some(t) => is_moment(secs as int, nanos as int) && t@ == (Moment {
                    secs: secs as int,
                    nanos: nanos as int,
                }),
                None => !is_moment(secs as int, nanos as int),
            },
    {
        if secs < FIRST_SECOND || secs > LAST_SECOND || nanos >= 2 * SECOND {
            return None;
        }
        if nanos >= SECOND {
            // the remainder is taken of a number that is not negative
            let shifted: i64 = secs - FIRST_SECOND;
            assert(shifted % 60 == secs % 60) by {
                assert(FIRST_SECOND % 60 == 0);
            }
            if shifted % 60 != 59 {
                return None;
            }
        }
        Some(Timestamp { secs, nanos })
    }

    /// The whole seconds since the start of 1970.
    pub fn secs(&self) -> (r: i64)
        ensures
            r == self@.secs,
    {
        self.secs
    }

    /// The nanoseconds.
    pub fn nanos(&self) -> (r: u32)
        ensures
            r == self@.nanos,
    {
        self.nanos
    }
}

/// The seconds of a day.
pub const DAY: i64 = 86400;

/// The leap second that lies between two points in time and that their seconds
/// do not count. Only the times of day are compared.
pub open spec fn uncounted_leap(now: Moment, then: Moment) -> int {
    if now.secs % (DAY as int) > then.secs % (DAY as int) && then.nanos >= SECOND {
        1
    } else if now.secs % (DAY as int) < then.secs % (DAY as int) && now.nanos >= SECOND {
        -1
    } else {
        0
    }
}

/// The nanoseconds from one point in time to another.
pub open spec fn elapsed(now: Moment, then: Moment) -> int {
    (now.secs - then.secs + uncounted_leap(now, then)) * SECOND + now.nanos - then.nanos
}

/// `chrono::DateTime::signed_duration_since`, on two points in time in UTC that
/// the calendar of the crate covers. The result is given as whole seconds and
/// the nanoseconds that are left. They amount to the difference of the points
/// in time, with a leap second counted as the crate counts it.
#[verifier::external_body]
fn signed_duration_since(now: Timestamp, then: Timestamp) -> (r: (i64, i32))
    requires
        is_moment(now@.secs, now@.nanos),
        is_moment(then@.secs, then@.nanos),
    ensures
        r.0 * SECOND + r.1 == elapsed(now@, then@),
{
    let now = chrono::DateTime::from_timestamp(now.secs, now.nanos).unwrap();
    let then = chrono::DateTime::from_timestamp(then.secs, then.nanos).unwrap();
    let d = now.signed_duration_since(then);
    (d.num_seconds(), d.subsec_nanos())
}

/// What is remembered of a user: the thread, and when the user last asked.
#[derive(Debug)]
pub struct UserContext {
    pub thread_id: String,
    pub last_inquiry: Timestamp,
}

/// What is remembered of a user, mathematically.
pub struct UserContextView {
    pub thread_id: Seq<char>,
    pub last_inquiry: Moment,
}

impl View for UserContext {
    type V = UserContextView;

    open spec fn view(&self) -> UserContextView {
        UserContextView { thread_id: self.thread_id@, last_inquiry: self.last_inquiry@ }
    }
}

/// How many minutes a thread is kept for.
pub const KEPT_MINUTES: u64 = 10;

/// The user last asked longer ago than threads are kept for.
pub open spec fn expired(context: UserContextView, now: Moment) -> bool {
    elapsed(now, context.last_inquiry) > KEPT_MINUTES * 60 * SECOND
}

/// The user last asked less long ago than threads are kept for.
pub open spec fn fresh(context: UserContextView, now: Moment) -> bool {
    elapsed(now, context.last_inquiry) < KEPT_MINUTES * 60 * SECOND
}

/// What is left of the stored context of a user when a message arrives: it is
/// removed where it has expired.
pub open spec fn kept(stored: Option<UserContextView>, now: Moment) -> Option<UserContextView> {
    match stored {
        Some(context) if !expired(context, now) => Some(context),
        _ => None,
    }
}

/// The stored context whose thread is used for a question: a fresh one.
pub open spec fn resumed(stored: Option<UserContextView>, now: Moment) -> Option<UserContextView> {
    match stored {
        Some(context) if fresh(context, now) => Some(context),
        _ => None,
    }
}

/// What became of looking up the stored context of a user.
#[derive(Debug)]
pub enum Lookup {
    Found(UserContext),
    Missing,
    Failed,
}

impl Lookup {
    /// The context that was found.
    pub open spec fn found(self) -> Option<UserContextView> {
        match self {
            Lookup::Found(context) => Some(context@),
            _ => None,
        }
    }
}

/// The nanoseconds since the user last asked.
pub fn age(context: &UserContext, now: &Timestamp) -> (r: i128)
    ensures
        r == elapsed(now@, context@.last_inquiry),
{
    let then = context.last_inquiry;
    proof {
        use_type_invariant(now);
        use_type_invariant(&then);
    }
    let (secs, nanos) = signed_duration_since(*now, then);
    secs as i128 * SECOND as i128 + nanos as i128
}

/// The nanoseconds that a thread is kept for.
fn kept_nanos() -> (r: i128)
    ensures
        r == KEPT_MINUTES * 60 * SECOND,
{
    let seconds: i128 = KEPT_MINUTES as i128 * 60;
    assert(seconds == 600);
    seconds * SECOND as i128
}

/// Whether a context has expired.
pub fn is_expired(context: &UserContext, now: &Timestamp) -> (r: bool)
    ensures
        r == expired(context@, now@),
{
    age(context, now) > kept_nanos()
}

/// Whether a context is fresh.
pub fn is_fresh(context: &UserContext, now: &Timestamp) -> (r: bool)
    ensures
        r == fresh(context@, now@),
{
    age(context, now) < kept_nanos()
}

/// Whether the stored context of a user is to be removed when a message of the
/// user arrives: it was found and is not kept.
pub fn is_to_be_removed(stored: &Lookup, now: &Timestamp) -> (r: bool)
    ensures
        r <==> stored.found() is Some && kept(stored.found(), now@) is None,
{
    match stored {
        Lookup::Found(context) => is_expired(context, now),
        _ => false,
    }
}

/// The stored context whose thread is used for a question.
pub fn context_to_resume(stored: Lookup, now: &Timestamp) -> (r: Option<UserContext>)
    ensures
        match r {
            Some(context) => resumed(stored.found(), now@) == Some(context@),
            None => resumed(stored.found(), now@) is None,
        },
{
    match stored {
        Lookup::Found(context) => {
            if is_fresh(&context, now) {
                Some(context)
            } else {
                None
            }
        },
        _ => None,
    }
}

/// Outside leap seconds, a context that has expired stays so as time goes on.
pub proof fn expiry_is_final(context: UserContextView, now: Moment, later: Moment)
    requires
        expired(context, now),
        0 <= context.last_inquiry.nanos < SECOND,
        0 <= now.nanos < SECOND,
        0 <= later.nanos < SECOND,
        now.secs < later.secs || now.secs == later.secs && now.nanos <= later.nanos,
    ensures
        expired(context, later),
{
}

/// Outside leap seconds, removing an expired context changes nothing: what is
/// used for a question later on is what would be used if nothing were removed.
pub proof fn removal_takes_nothing_of_use(
    stored: Option<UserContextView>,
    now: Moment,
    later: Moment,
)
    requires
        stored matches Some(context) ==> 0 <= context.last_inquiry.nanos < SECOND,
        0 <= now.nanos < SECOND,
        0 <= later.nanos < SECOND,
        now.secs < later.secs || now.secs == later.secs && now.nanos <= later.nanos,
    ensures
        resumed(kept(stored, now), later) == resumed(stored, later),
{
    if let Some(context) = stored {
        if expired(context, now) {
            expiry_is_final(context, now, later);
        }
    }
}

/// The key under which the context of a user is stored.
pub fn context_key(user_id: i64) -> (r: String)
    ensures
        r@ == integer(user_id as int),
{
    integer_text(user_id)
}

/// Two users never share a key.
pub proof fn keys_are_distinct(a: i64, b: i64)
    requires
        a != b,
    ensures
        integer(a as int) != integer(b as int),
{
    if integer(a as int) == integer(b as int) {
        integer_is_injective(a as int, b as int);
    }
}

// ------------------------------------------------------------------------ laws

/// The points in time are the nanoseconds of each second of the calendar. A leap
/// second can follow the last second of a minute, and no other.
pub proof fn moments_are_those_of_the_calendar(secs: int, nanos: int)
    ensures
        0 <= nanos < 1000000000 ==> (is_moment(secs, nanos) <==> -8334601228800 <= secs
            <= 8210266876799),
        1000000000 <= nanos < 2000000000 ==> (is_moment(secs, nanos) <==> -8334601228800 <= secs
            <= 8210266876799 && secs % 60 == 59),
        nanos < 0 || nanos >= 2000000000 ==> !is_moment(secs, nanos),
{
}

/// A leap second in which one point in time lies counts where the other lies later
/// in the day, or earlier in the day where it is the later of the two; and a
/// context expires, and is fresh, by the time that is counted so.
pub proof fn leap_seconds_are_counted_by_the_time_of_day(
    now: Moment,
    then: Moment,
    thread_id: Seq<char>,
)
    ensures
        ({
            let plain = (now.secs - then.secs) * 1000000000 + now.nanos - then.nanos;
            let c = UserContextView { thread_id: thread_id, last_inquiry: then };
            &&& then.nanos >= 1000000000 && now.secs % 86400 > then.secs % 86400 ==> elapsed(
                now,
                then,
            ) == plain + 1000000000
            &&& now.nanos >= 1000000000 && now.secs % 86400 < then.secs % 86400 ==> elapsed(
                now,
                then,
            ) == plain - 1000000000
            &&& now.secs % 86400 == then.secs % 86400 ==> elapsed(now, then) == plain
            &&& then.nanos < 1000000000 && now.secs % 86400 > then.secs % 86400 ==> elapsed(
                now,
                then,
            ) == plain
            &&& now.nanos < 1000000000 && now.secs % 86400 < then.secs % 86400 ==> elapsed(
                now,
                then,
            ) == plain
            &&& expired(c, now) <==> elapsed(now, then) > 600000000000
            &&& fresh(c, now) <==> elapsed(now, then) < 600000000000
            &&& kept(Some(c), now) == if expired(c, now) {
                None
            } else {
                Some(c)
            }
            &&& resumed(Some(c), now) == if fresh(c, now) {
                Some(c)
            } else {
                None
            }
        }),
{
}

/// Outside leap seconds, the time between two points in time is their difference
/// in nanoseconds.
pub proof fn time_is_counted_in_nanoseconds(now: Moment, then: Moment)
    requires
        0 <= now.nanos < 1000000000,
        0 <= then.nanos < 1000000000,
    ensures
        elapsed(now, then) == (now.secs * 1000000000 + now.nanos) - (then.secs * 1000000000
            + then.nanos),
{
}

/// Outside leap seconds, a context has expired when the user last asked more than
/// ten minutes ago, and is fresh while it is less; an expired one is removed, and
/// a fresh one is used, with the thread and the time that were stored.
pub proof fn contexts_are_kept_for_ten_minutes(c: UserContextView, now: Moment)
    requires
        0 <= now.nanos < 1000000000,
        0 <= c.last_inquiry.nanos < 1000000000,
    ensures
        ({
            let age = (now.secs * 1000000000 + now.nanos) - (c.last_inquiry.secs * 1000000000
                + c.last_inquiry.nanos);
            &&& expired(c, now) <==> age > 600000000000
            &&& fresh(c, now) <==> age < 600000000000
            &&& kept(Some(c), now) == if age > 600000000000 {
                None
            } else {
                Some(c)
            }
            &&& resumed(Some(c), now) == if age < 600000000000 {
                Some(c)
            } else {
                None
            }
        }),
        kept(None, now) is None,
        resumed(None, now) is None,
{
    time_is_counted_in_nanoseconds(now, c.last_inquiry);
}

/// What was found is the stored context with its thread and its time; nothing is
/// found where it is missing or the lookup failed.
pub proof fn lookups_show_what_was_found(c: UserContext)
    ensures
        c@.thread_id == c.thread_id@,
        c@.last_inquiry == c.last_inquiry@,
        Lookup::Found(c).found() == Some(
            UserContextView { thread_id: c.thread_id@, last_inquiry: c.last_inquiry@ },
        ),
        Lookup::Missing.found() is None,
        Lookup::Failed.found() is None,
{
}

} // verus!
