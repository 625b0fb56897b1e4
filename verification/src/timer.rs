//! The timer module's state and message decoding.
//!
//! Timers arrive as ad-hoc text messages of `key=value` pairs separated by
//! bars; the module keeps the running timers and extracts the expired ones
//! when a wake-up fires, so each can raise its notification.

use vstd::prelude::*;

use crate::text;

verus! {

/// One running timer.
#[derive(Clone, Debug)]
pub struct Timer {
    /// The icon shown beside the timer's progress.
    pub icon: char,
    /// The message of the expiry notification.
    pub message: String,
    /// When the timer started, in milliseconds of the worker's clock.
    pub start: u64,
    /// How long the timer runs, in milliseconds.
    pub duration: u64,
}

impl Timer {
    /// Whether the timer has expired at the given instant.
    pub open spec fn expired_at(self, now: int) -> bool {
        self.start + self.duration < now
    }

    /// An exact copy.
    pub fn duplicate(&self) -> (r: Self)
        ensures
            r == *self,
    {
        Timer {
            icon: self.icon,
            message: self.message.clone(),
            start: self.start,
            duration: self.duration,
        }
    }
}

/// A message the timer module reacts to.
#[derive(Clone, Debug)]
pub enum TimerMessage {
    /// Start a timer with the given icon, notification message and duration
    /// in milliseconds.
    Create(char, String, u64),
    /// A wake-up fired: collect the expired timers.
    Stop,
    /// Nothing to do.
    Done,
}

/// The value of the last `key=value` pair bearing `key`, keys and values
/// whitespace trimmed; a pair without a separator carries nothing.
pub open spec fn field_of(parts: Seq<Seq<char>>, key: Seq<char>) -> Option<Seq<char>>
    decreases parts.len(),
{
    if parts.len() == 0 {
        None
    } else {
        let part = parts.last();
        let k = text::first_at(part, '=') as int;
        if k < part.len() && text::trimmed(part.subrange(0, k)) == key {
            Some(text::trimmed(part.subrange(k + 1, part.len() as int)))
        } else {
            field_of(parts.drop_last(), key)
        }
    }
}

/// The fields a timer request names: the icon name, the notification
/// message, and the duration in seconds — the last value given for each.  A
/// duration that is not a plain number counts as not given.
pub struct TimerRequest {
    /// The name of the requested icon, to be resolved by the caller.
    pub icon: Option<String>,
    /// The notification message.
    pub message: Option<String>,
    /// The duration in seconds.
    pub duration: Option<u64>,
}

/// Decodes a timer request: bar-separated `key=value` pairs with the keys
/// `icon`, `message` and `duration`; repeated keys keep the last value,
/// unknown keys and pairs without a separator say nothing.
pub fn parse_timer_request(message: &str) -> (r: TimerRequest)
    ensures
        ({
            let parts = text::split_at(message@, '|');
            &&& match r.icon {
                Some(v) => field_of(parts, "icon"@) == Some(v@),
                None => field_of(parts, "icon"@) is None,
            }
            &&& match r.message {
                Some(v) => field_of(parts, "message"@) == Some(v@),
                None => field_of(parts, "message"@) is None,
            }
            &&& match r.duration {
                Some(v) => {
                    &&& field_of(parts, "duration"@) matches Some(d)
                    &&& text::is_numeral(field_of(parts, "duration"@)->Some_0)
                    &&& v == text::digits_value(field_of(parts, "duration"@)->Some_0)
                },
                None => match field_of(parts, "duration"@) {
                    Some(d) => !text::is_numeral(d) || text::digits_value(d) > u64::MAX,
                    None => true,
                },
            }
        }),
{
    let parts = text::split_char(message, '|');
    let ghost part_views = parts@.map_values(|p: String| p@);
    let mut icon: Option<String> = None;
    let mut msg: Option<String> = None;
    let mut duration_text: Option<String> = None;
    let mut i: usize = 0;
    proof {
        reveal_strlit("icon");
        reveal_strlit("message");
        reveal_strlit("duration");
        assert("icon"@.len() == 4);
        assert("message"@.len() == 7);
        assert("duration"@.len() == 8);
        assert(part_views.subrange(0, 0) =~= Seq::<Seq<char>>::empty());
    }
    while i < parts.len()
        invariant
            0 <= i <= parts@.len(),
            part_views == parts@.map_values(|p: String| p@),
            match icon {
                Some(v) => field_of(part_views.subrange(0, i as int), "icon"@) == Some(v@),
                None => field_of(part_views.subrange(0, i as int), "icon"@) is None,
            },
            match msg {
                Some(v) => field_of(part_views.subrange(0, i as int), "message"@) == Some(v@),
                None => field_of(part_views.subrange(0, i as int), "message"@) is None,
            },
            match duration_text {
                Some(v) => field_of(part_views.subrange(0, i as int), "duration"@) == Some(v@),
                None => field_of(part_views.subrange(0, i as int), "duration"@) is None,
            },
        decreases parts@.len() - i,
    {
        let ghost prefix = part_views.subrange(0, i as int);
        let part = &parts[i];
        proof {
            assert(part_views[i as int] == part@);
            assert(part_views.subrange(0, i + 1 as int).drop_last() =~= prefix);
            assert(part_views.subrange(0, i + 1 as int).last() == part@);
        }
        let plen = part.as_str().unicode_len();
        let eq = find_equals(part.as_str());
        if eq < plen {
            let key = text::trim(part.as_str().substring_char(0, eq));
            let value = text::trim(part.as_str().substring_char(eq + 1, plen));
            if text::str_eq(key, "icon") {
                icon = Some(value.to_owned());
            } else if text::str_eq(key, "message") {
                msg = Some(value.to_owned());
            } else if text::str_eq(key, "duration") {
                duration_text = Some(value.to_owned());
            }
        }
        i = i + 1;
    }
    proof {
        assert(part_views.subrange(0, part_views.len() as int) =~= part_views);
    }
    let duration = match &duration_text {
        Some(v) => text::parse_u64(v.as_str()),
        None => None,
    };
    TimerRequest { icon, message: msg, duration }
}

/// Finds the first `=` of a pair, or the length when it has none.
fn find_equals(part: &str) -> (r: usize)
    ensures
        r == text::first_at(part@, '='),
        r <= part@.len(),
{
    let len = part.unicode_len();
    let mut i: usize = 0;
    while i < len
        invariant
            0 <= i <= len,
            len == part@.len(),
            forall|m: int| 0 <= m < i ==> (#[trigger] part@[m]) != '=',
        decreases len - i,
    {
        if part.get_char(i) == '=' {
            proof {
                text::lemma_first_at_is(part@, '=', i as int);
            }
            return i;
        }
        i = i + 1;
    }
    proof {
        text::lemma_first_at_is(part@, '=', len as int);
    }
    len
}

/// The timers that remain after extracting those expired at `now`.
pub open spec fn remaining_timers(timers: Seq<Timer>, now: int) -> Seq<Timer>
    decreases timers.len(),
{
    if timers.len() == 0 {
        Seq::empty()
    } else {
        let init = remaining_timers(timers.drop_last(), now);
        if timers.last().expired_at(now) {
            init
        } else {
            init.push(timers.last())
        }
    }
}

/// The timers expired at `now`, in their original order.
pub open spec fn expired_timers(timers: Seq<Timer>, now: int) -> Seq<Timer>
    decreases timers.len(),
{
    if timers.len() == 0 {
        Seq::empty()
    } else {
        let init = expired_timers(timers.drop_last(), now);
        if timers.last().expired_at(now) {
            init.push(timers.last())
        } else {
            init
        }
    }
}

/// The timer module's state: the running timers.
pub struct TimerModule {
    /// The running timers, oldest first.
    pub timers: Vec<Timer>,
}

impl TimerModule {
    /// A module with no timer running.
    pub fn new() -> (r: Self)
        ensures
            r.timers@ == Seq::<Timer>::empty(),
    {
        TimerModule { timers: Vec::new() }
    }

    /// Starts a timer at the given instant.
    pub fn create(&mut self, icon: char, message: String, duration: u64, now: u64)
        ensures
            final(self).timers@.len() == old(self).timers@.len() + 1,
            final(self).timers@.subrange(0, old(self).timers@.len() as int) == old(self).timers@,
            final(self).timers@.last() == (Timer { icon, message, start: now, duration }),
    {
        self.timers.push(Timer { icon, message, start: now, duration });
    }

    /// Extracts every timer expired at `now`, keeping the rest running: the
    /// expired ones are returned in order so each can raise its
    /// notification.
    pub fn expire(&mut self, now: u64) -> (expired: Vec<Timer>)
        ensures
            final(self).timers@ == remaining_timers(old(self).timers@, now as int),
            expired@ == expired_timers(old(self).timers@, now as int),
    {
        let ghost orig = self.timers@;
        let mut kept: Vec<Timer> = Vec::new();
        let mut expired: Vec<Timer> = Vec::new();
        let mut i: usize = 0;
        while i < self.timers.len()
            invariant
                0 <= i <= self.timers@.len(),
                self.timers@ == orig,
                kept@ == remaining_timers(orig.subrange(0, i as int), now as int),
                expired@ == expired_timers(orig.subrange(0, i as int), now as int),
            decreases self.timers@.len() - i,
        {
            let ghost prefix = orig.subrange(0, i as int);
            let timer = &self.timers[i];
            let deadline: u128 = timer.start as u128 + timer.duration as u128;
            if deadline < now as u128 {
                expired.push(timer.duplicate());
            } else {
                kept.push(timer.duplicate());
            }
            proof {
                assert(orig.subrange(0, i + 1 as int).drop_last() =~= prefix);
                assert(orig.subrange(0, i + 1 as int).last() == orig[i as int]);
            }
            i = i + 1;
        }
        proof {
            assert(orig.subrange(0, orig.len() as int) =~= orig);
        }
        self.timers = kept;
        expired
    }
}

} // verus!
