//! Active-selector tracking for the single-valued strength mirrors.
//!
//! A provider names, per physical device, the one object that currently
//! matters — the active access point of a wireless device, the active modem
//! of a cellular one.  When that identity changes, the dependent
//! signal-strength subscription is torn down and recreated; the provider's
//! empty/root sentinel means "no object" and is never bound.  Every rebind
//! opens a new session epoch, and an event stamped with an earlier epoch is
//! rejected, so a stray event from a torn-down session can never resurrect
//! stale state.  Right after every rebind the first reading is pulled
//! eagerly, so a fresh subscriber is never left without an initial value.

use vstd::prelude::*;

verus! {

/// Whether `s` is the provider's "no object" sentinel: the empty identity or
/// the bare root path.
pub open spec fn is_sentinel(s: Seq<char>) -> bool {
    s.len() == 0 || s == seq!['/']
}

/// What a selector value resolves to: nothing for the sentinel, the identity
/// itself otherwise.
pub open spec fn selector_target(raw: Seq<char>) -> Option<Seq<char>> {
    if is_sentinel(raw) {
        None
    } else {
        Some(raw)
    }
}

/// Tests a reported identity against the sentinel.
pub fn sentinel(raw: &str) -> (r: bool)
    ensures
        r == is_sentinel(raw@),
{
    let len = raw.unicode_len();
    if len == 0 {
        true
    } else if len == 1 && raw.get_char(0) == '/' {
        proof {
            assert(raw@ =~= seq!['/']);
        }
        true
    } else {
        proof {
            if raw@ == seq!['/'] {
                assert(raw@.len() == 1);
            }
        }
        false
    }
}

/// Filters an active-object identity: the sentinel yields nothing — never a
/// bind attempt — and any other identity passes through unchanged.
pub fn filter_selector(raw: &str) -> (r: Option<String>)
    ensures
        match r {
            Some(p) => !is_sentinel(raw@) && p@ == raw@,
            None => is_sentinel(raw@),
        },
{
    if sentinel(raw) {
        None
    } else {
        Some(raw.to_owned())
    }
}

/// What a selector change asks the worker to do.
pub enum RebindAction {
    /// The selector resolved to what is already bound: keep the current
    /// subscription, deliver nothing anew.
    Keep,
    /// Tear the current subscription down and bind the named identity, or
    /// nothing when the selector resolved to the sentinel.
    Rebind(Option<String>),
}

/// The identity a single-valued stream is currently bound to, together with
/// the session epoch that stamps its events.
pub struct ActiveSelector {
    pub bound: Option<String>,
    pub epoch: u64,
}

impl ActiveSelector {
    /// The view of the currently bound identity.
    pub open spec fn bound_view(self) -> Option<Seq<char>> {
        match self.bound {
            Some(b) => Some(b@),
            None => None,
        }
    }

    /// Starts a selector session bound to nothing.
    pub fn new() -> (r: Self)
        ensures
            r.bound_view() is None,
            r.epoch == 0,
    {
        ActiveSelector { bound: None, epoch: 0 }
    }

    /// Applies a reported selector change.  A value that resolves to the
    /// currently bound identity changes nothing; any other value tears the
    /// old subscription down — the epoch advances, closing its session — and
    /// binds the new identity, or nothing for the sentinel.
    pub fn on_change(&mut self, raw: &str) -> (action: RebindAction)
        requires
            old(self).epoch < u64::MAX,
        ensures
            selector_target(raw@) == old(self).bound_view() ==> {
                &&& *final(self) == *old(self)
                &&& action is Keep
            },
            selector_target(raw@) != old(self).bound_view() ==> {
                &&& final(self).bound_view() == selector_target(raw@)
                &&& final(self).epoch == old(self).epoch + 1
                &&& action matches RebindAction::Rebind(t) && (match t {
                    Some(p) => selector_target(raw@) == Some(p@),
                    None => selector_target(raw@) is None,
                })
            },
    {
        let target = filter_selector(raw);
        let same = match (&self.bound, &target) {
            (Some(b), Some(t)) => crate::text::str_eq(b.as_str(), t.as_str()),
            (None, None) => true,
            _ => false,
        };
        if same {
            RebindAction::Keep
        } else {
            let echo = match &target {
                Some(t) => Some(t.clone()),
                None => None,
            };
            self.bound = target;
            self.epoch = self.epoch + 1;
            RebindAction::Rebind(echo)
        }
    }

    /// Whether an event stamped with session `epoch` is current.  Events of a
    /// torn-down session are stale and must be dropped.
    pub fn accepts(&self, epoch: u64) -> (r: bool)
        ensures
            r == (epoch == self.epoch),
    {
        epoch == self.epoch
    }
}

/// The worker state of one signal-strength mirror: the selector session plus
/// the flag asking for an eager first reading after a rebind.
pub struct StrengthMirror {
    pub selector: ActiveSelector,
    pub pending_read: bool,
}

impl StrengthMirror {
    /// Starts a mirror bound to nothing, with no reading pending.
    pub fn new() -> (r: Self)
        ensures
            r.selector.bound_view() is None,
            r.selector.epoch == 0,
            !r.pending_read,
    {
        StrengthMirror { selector: ActiveSelector::new(), pending_read: false }
    }

    /// Applies an active-selector change event.  On a rebind the first
    /// reading is scheduled to be pulled eagerly, so the stream always has a
    /// live value without waiting for the provider's next push.
    pub fn on_selector_change(&mut self, raw: &str) -> (action: RebindAction)
        requires
            old(self).selector.epoch < u64::MAX,
        ensures
            selector_target(raw@) == old(self).selector.bound_view() ==> {
                &&& *final(self) == *old(self)
                &&& action is Keep
            },
            selector_target(raw@) != old(self).selector.bound_view() ==> {
                &&& final(self).selector.bound_view() == selector_target(raw@)
                &&& final(self).selector.epoch == old(self).selector.epoch + 1
                &&& final(self).pending_read
                &&& action matches RebindAction::Rebind(t) && (match t {
                    Some(p) => selector_target(raw@) == Some(p@),
                    None => selector_target(raw@) is None,
                })
            },
    {
        let action = self.selector.on_change(raw);
        match &action {
            RebindAction::Keep => {},
            RebindAction::Rebind(_) => {
                self.pending_read = true;
            },
        }
        action
    }

    /// Takes the eager-read request: true exactly once after a rebind that
    /// bound an identity, so the worker pulls the current reading and pushes
    /// it immediately.
    pub fn take_pending_read(&mut self) -> (r: bool)
        ensures
            r == (old(self).pending_read && old(self).selector.bound_view() is Some),
            !final(self).pending_read,
            final(self).selector == old(self).selector,
    {
        let r = self.pending_read && self.bound_target().is_some();
        self.pending_read = false;
        r
    }

    /// The identity currently bound, if any.
    fn bound_target(&self) -> (r: Option<&String>)
        ensures
            r matches Some(b) ==> self.selector.bound_view() == Some(b@),
            r is None ==> self.selector.bound_view() is None,
    {
        match &self.selector.bound {
            Some(b) => Some(b),
            None => None,
        }
    }

    /// Decides what a strength report is worth: the normalized value to
    /// publish when the report belongs to the current session, nothing when
    /// it is a leftover of a torn-down one.
    pub fn on_strength(&self, epoch: u64, strength: u32) -> (r: Option<u32>)
        ensures
            epoch == self.selector.epoch ==> r == Some(strength),
            epoch != self.selector.epoch ==> r is None,
    {
        if self.selector.accepts(epoch) {
            Some(strength)
        } else {
            None
        }
    }
}

/// The identity bound after a sequence of selector change events, each
/// applied as [`ActiveSelector::on_change`] does.
pub open spec fn bound_after(start: Option<Seq<char>>, events: Seq<Seq<char>>) -> Option<
    Seq<char>,
>
    decreases events.len(),
{
    if events.len() == 0 {
        start
    } else {
        selector_target(events.last())
    }
}

/// How many times a sequence of selector change events tears the dependent
/// subscription down and recreates it: one rebind for every event that does
/// not resolve to what is already bound.
pub open spec fn rebind_count(start: Option<Seq<char>>, events: Seq<Seq<char>>) -> int
    decreases events.len(),
{
    if events.len() == 0 {
        0
    } else {
        rebind_count(start, events.drop_last()) + if selector_target(events.last())
            == bound_after(start, events.drop_last()) {
            0int
        } else {
            1int
        }
    }
}

/// Selector rebind determinism.  Starting bound to `a`, the change-event
/// sequence `[a, b, a]` tears the dependent subscription down and recreates
/// it exactly twice — once switching to `b`, once returning to `a` — and ends
/// bound to `a` again.  Each rebind advances the session epoch, so an event
/// of the first `a` session, stamped with the starting epoch, is no longer
/// accepted after the switch back: the final epoch lies two sessions later.
pub proof fn lemma_selector_rebind_determinism(a: Seq<char>, b: Seq<char>, epoch0: int)
    requires
        !is_sentinel(a),
        !is_sentinel(b),
        a != b,
    ensures
        rebind_count(Some(a), seq![a, b, a]) == 2,
        bound_after(Some(a), seq![a, b, a]) == Some(a),
        epoch0 + rebind_count(Some(a), seq![a, b, a]) != epoch0,
{
    let events = seq![a, b, a];
    reveal_with_fuel(rebind_count, 4);
    assert(events.drop_last() =~= seq![a, b]);
    assert(seq![a, b].drop_last() =~= seq![a]);
    assert(seq![a].drop_last() =~= Seq::<Seq<char>>::empty());
    assert(rebind_count(Some(a), seq![a]) == 0);
    assert(rebind_count(Some(a), seq![a, b]) == 1);
}

} // verus!
