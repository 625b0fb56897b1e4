//! The fan-out primitive: a single-slot, multi-subscriber broadcast cell.
//!
//! A producer publishes whole snapshots into one readable slot, overwriting
//! whatever an earlier publish left there.  Each subscriber remembers the
//! version it has already observed and, on a receive, either gets the latest
//! snapshot or nothing when no newer one exists.  Slow subscribers therefore
//! observe gaps, never duplicates, and never block the producer: latest value
//! wins.  The ghost history records every published value so the delivery
//! order can be stated and proved.

use vstd::prelude::*;

verus! {

/// The producer side: the current slot plus the ghost history of every value
/// published so far.  The version number equals the history's length.
pub struct Fanout<T> {
    slot: Option<T>,
    version: u64,
    history: Ghost<Seq<T>>,
}

/// One consumer's receiving end: the version it has already observed.
pub struct Subscriber {
    seen: u64,
}

impl Subscriber {
    /// The version this subscriber has already observed.
    pub closed spec fn seen(self) -> int {
        self.seen as int
    }
}

impl<T> Fanout<T> {
    /// Every value ever published, oldest first.
    pub closed spec fn log(self) -> Seq<T> {
        self.history@
    }

    /// The channel's version: how many values have been published.
    pub closed spec fn version(self) -> int {
        self.version as int
    }

    /// The slot holds exactly the most recent publish.
    pub closed spec fn wf(self) -> bool {
        &&& self.version == self.history@.len()
        &&& self.history@.len() > 0 ==> self.slot == Some(self.history@.last())
        &&& self.history@.len() == 0 ==> self.slot is None
    }

    /// An empty channel: nothing published, nothing readable.
    pub fn new() -> (r: Self)
        ensures
            r.wf(),
            r.log() == Seq::<T>::empty(),
    {
        Fanout { slot: None, version: 0, history: Ghost(Seq::empty()) }
    }

    /// Publishes a new snapshot, overwriting the slot.  Never blocks and never
    /// fails, whether or not any subscriber exists.
    pub fn publish(&mut self, value: T)
        requires
            old(self).wf(),
            old(self).version() < u64::MAX,
        ensures
            final(self).wf(),
            final(self).log() == old(self).log().push(value),
    {
        self.slot = Some(value);
        self.version = self.version + 1;
        proof {
            self.history@ = self.history@.push(value);
        }
    }

    /// A new subscription starts from the moment of subscription: it observes
    /// only values published afterwards, never replayed history.
    pub fn subscribe(&self) -> (s: Subscriber)
        ensures
            s.seen() == self.version(),
    {
        Subscriber { seen: self.version }
    }

    /// Receives the latest snapshot if one newer than the subscriber's last
    /// observation exists, and advances the subscriber to the current version.
    pub fn recv<'a>(&'a self, sub: &mut Subscriber) -> (r: Option<&'a T>)
        requires
            self.wf(),
            old(sub).seen() <= self.version(),
        ensures
            old(sub).seen() < self.version() ==> {
                &&& r matches Some(v) && *v == self.log().last()
                &&& final(sub).seen() == self.version()
            },
            old(sub).seen() == self.version() ==> {
                &&& r is None
                &&& final(sub).seen() == old(sub).seen()
            },
    {
        match &self.slot {
            Some(v) => {
                if sub.seen < self.version {
                    sub.seen = self.version;
                    Some(v)
                } else {
                    None
                }
            },
            None => None,
        }
    }
}

/// Latest-wins delivery.  A producer appends writes to its history; a
/// subscriber that has already observed the write at position `i` and receives
/// again after further writes observes the newest write — a strictly later
/// position, never an older one — and a receive performed after the last write
/// observes exactly that last write, however many intermediate writes were
/// skipped.
pub proof fn lemma_latest_wins<T>(log_then: Seq<T>, log_now: Seq<T>, i: int)
    requires
        // the producer only appends: the earlier history is a prefix
        log_then == log_now.subrange(0, log_then.len() as int),
        // the subscriber observed the write at position i, the latest then
        i == log_then.len() - 1,
        0 <= i,
        // the producer has written again since
        log_then.len() < log_now.len(),
    ensures
        // the next receive observes the last write, at a strictly later position
        log_now.len() - 1 > i,
        log_now[log_now.len() - 1] == log_now.last(),
        // and what was observed before is unchanged by the later writes
        log_now[i] == log_then[i],
{
    assert(log_now.subrange(0, log_then.len() as int)[i] == log_now[i]);
}

} // verus!
