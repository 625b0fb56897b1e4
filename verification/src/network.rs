//! The connection-state mirror.
//!
//! Tracks the provider's active network connections: each one carries a
//! display name, a classification, a state decoded from the provider's
//! numeric code — unrecognized codes clamp to unknown, never error — and
//! optionally the owning physical device.  Per-connection property events
//! mutate a working copy field by field, and the whole table is republished
//! as one coalesced snapshot after every change.  Membership follows the
//! provider's complete connection lists through reconciliation: drop the
//! departed, then bind the newly appeared.

use vstd::prelude::*;

use crate::tracker;

verus! {

/// Current state of a connection, decoded from the provider's numeric code.
#[derive(Clone, Copy, Debug, PartialEq, Eq, Structural)]
pub enum ActiveConnectionState {
    /// The state of the connection is unknown.
    Unknown,
    /// A network connection is being prepared.
    Activating,
    /// There is a connection to the network.
    Activated,
    /// The network connection is being torn down and cleaned up.
    Deactivating,
    /// The network connection is disconnected and will be removed.
    Deactivated,
}

/// The state a numeric provider code denotes; every unrecognized code means
/// unknown.
pub open spec fn state_of_code(num: u32) -> ActiveConnectionState {
    if num == 1 {
        ActiveConnectionState::Activating
    } else if num == 2 {
        ActiveConnectionState::Activated
    } else if num == 3 {
        ActiveConnectionState::Deactivating
    } else if num == 4 {
        ActiveConnectionState::Deactivated
    } else {
        ActiveConnectionState::Unknown
    }
}

impl ActiveConnectionState {
    /// Decodes the provider's numeric state code, clamping unrecognized codes
    /// to unknown rather than failing.
    pub fn parse(num: u32) -> (r: Self)
        ensures
            r == state_of_code(num),
    {
        match num {
            1 => Self::Activating,
            2 => Self::Activated,
            3 => Self::Deactivating,
            4 => Self::Deactivated,
            _ => Self::Unknown,
        }
    }
}

/// Classification of a connection by the provider's type name.
#[derive(Clone, Debug, PartialEq, Eq)]
pub enum ActiveConnectionKind {
    /// An ethernet connection.
    Wired,
    /// A wifi connection.
    Wireless,
    /// A cellular connection.
    Cellular,
    /// Any other type, carrying the provider's name for it.
    Unknown(String),
}

impl ActiveConnectionKind {
    /// Decodes the provider's connection type name; any name not recognized
    /// is carried along as unknown.
    pub fn parse(string: &str) -> (r: Self)
        ensures
            string@ == "802-3-ethernet"@ ==> r is Wired,
            string@ == "802-11-wireless"@ ==> r is Wireless,
            string@ == "gsm"@ ==> r is Cellular,
            string@ != "802-3-ethernet"@ && string@ != "802-11-wireless"@ && string@ != "gsm"@
                ==> (r matches ActiveConnectionKind::Unknown(n) && n@ == string@),
    {
        proof {
            reveal_strlit("802-3-ethernet");
            reveal_strlit("802-11-wireless");
            reveal_strlit("gsm");
            assert("802-3-ethernet"@.len() == 14);
            assert("802-11-wireless"@.len() == 15);
            assert("gsm"@.len() == 3);
        }
        if crate::text::str_eq(string, "802-3-ethernet") {
            Self::Wired
        } else if crate::text::str_eq(string, "802-11-wireless") {
            Self::Wireless
        } else if crate::text::str_eq(string, "gsm") {
            Self::Cellular
        } else {
            Self::Unknown(string.to_owned())
        }
    }

    /// An exact copy of this classification.
    pub fn duplicate(&self) -> (r: Self)
        ensures
            r == *self,
    {
        match self {
            Self::Wired => Self::Wired,
            Self::Wireless => Self::Wireless,
            Self::Cellular => Self::Cellular,
            Self::Unknown(n) => Self::Unknown(n.clone()),
        }
    }
}

/// The snapshot of one tracked connection: always internally consistent,
/// republished as a whole after every field update.
#[derive(Clone, Debug)]
pub struct ActiveConnection {
    /// The provider's object identity for the connection.
    pub path: String,
    /// Name of the connection displayed to the user.
    pub name: String,
    /// Classification of the connection.
    pub kind: ActiveConnectionKind,
    /// State of the connection.
    pub state: ActiveConnectionState,
    /// The owning physical device, if there is one.
    pub device: Option<String>,
}

/// One property-change event of a tracked connection.
#[derive(Clone, Debug)]
pub enum ConnectionEvent {
    /// The display name changed.
    Name(String),
    /// The provider's type name changed.
    Kind(ActiveConnectionKind),
    /// The provider reported a new numeric state code.
    State(ActiveConnectionState),
    /// The owning device changed, possibly to none.
    Device(Option<String>),
}

impl ActiveConnection {
    /// Assembles the initial snapshot of a freshly bound connection from the
    /// property values read at bind time.
    pub fn new(
        path: String,
        name: String,
        kind_name: &str,
        state_code: u32,
        device: Option<String>,
    ) -> (r: Self)
        ensures
            r.path == path,
            r.name == name,
            r.state == state_of_code(state_code),
            r.device == device,
            kind_name@ == "802-3-ethernet"@ ==> r.kind is Wired,
            kind_name@ == "802-11-wireless"@ ==> r.kind is Wireless,
            kind_name@ == "gsm"@ ==> r.kind is Cellular,
            kind_name@ != "802-3-ethernet"@ && kind_name@ != "802-11-wireless"@ && kind_name@
                != "gsm"@ ==> (r.kind matches ActiveConnectionKind::Unknown(n) && n@
                == kind_name@),
    {
        ActiveConnection {
            path,
            name,
            kind: ActiveConnectionKind::parse(kind_name),
            state: ActiveConnectionState::parse(state_code),
            device,
        }
    }

    /// Applies one property-change event to the working copy: exactly the
    /// named field changes, its siblings stay, so the snapshot never shows a
    /// partial update.
    pub fn apply_event(&mut self, event: ConnectionEvent)
        ensures
            final(self).path == old(self).path,
            match event {
                ConnectionEvent::Name(n) => *final(self) == ActiveConnection {
                    name: n,
                    ..*old(self)
                },
                ConnectionEvent::Kind(k) => *final(self) == ActiveConnection {
                    kind: k,
                    ..*old(self)
                },
                ConnectionEvent::State(s) => *final(self) == ActiveConnection {
                    state: s,
                    ..*old(self)
                },
                ConnectionEvent::Device(d) => *final(self) == ActiveConnection {
                    device: d,
                    ..*old(self)
                },
            },
    {
        match event {
            ConnectionEvent::Name(n) => {
                self.name = n;
            },
            ConnectionEvent::Kind(k) => {
                self.kind = k;
            },
            ConnectionEvent::State(s) => {
                self.state = s;
            },
            ConnectionEvent::Device(d) => {
                self.device = d;
            },
        }
    }

    /// An exact copy of this snapshot.
    pub fn duplicate(&self) -> (r: Self)
        ensures
            r == *self,
    {
        ActiveConnection {
            path: self.path.clone(),
            name: self.name.clone(),
            kind: self.kind.duplicate(),
            state: self.state,
            device: match &self.device {
                Some(d) => Some(d.clone()),
                None => None,
            },
        }
    }
}

/// The entries of `entries` whose path the identity list `keep` still names.
pub open spec fn retained(entries: Seq<ActiveConnection>, keep: Seq<String>) -> Seq<
    ActiveConnection,
>
    decreases entries.len(),
{
    if entries.len() == 0 {
        Seq::empty()
    } else {
        let init = retained(entries.drop_last(), keep);
        if tracker::holds_identity(keep, entries.last().path@) {
            init.push(entries.last())
        } else {
            init
        }
    }
}

/// The table of tracked connections, keyed by the provider's object path.
pub struct ConnectionTable {
    entries: Vec<ActiveConnection>,
}

impl ConnectionTable {
    /// The tracked snapshots, in tracking order.
    pub closed spec fn entries_view(self) -> Seq<ActiveConnection> {
        self.entries@
    }

    /// Each path is tracked at most once.
    pub open spec fn wf(self) -> bool {
        forall|i: int, j: int|
            0 <= i < j < self.entries_view().len() ==> (#[trigger] self.entries_view()[i]).path@
                != (#[trigger] self.entries_view()[j]).path@
    }

    /// Whether the connection at `path` is tracked.
    pub open spec fn tracks(self, path: Seq<char>) -> bool {
        exists|i: int|
            0 <= i < self.entries_view().len() && (#[trigger] self.entries_view()[i]).path@ == path
    }

    /// An empty table.
    pub fn new() -> (r: Self)
        ensures
            r.wf(),
            r.entries_view() == Seq::<ActiveConnection>::empty(),
    {
        ConnectionTable { entries: Vec::new() }
    }

    /// The position of the entry tracking `path`.
    fn position(&self, path: &str) -> (r: Option<usize>)
        ensures
            match r {
                Some(i) => i < self.entries_view().len() && self.entries_view()[i as int].path@
                    == path@,
                None => !self.tracks(path@),
            },
    {
        let mut i: usize = 0;
        while i < self.entries.len()
            invariant
                0 <= i <= self.entries_view().len(),
                forall|k: int|
                    0 <= k < i ==> (#[trigger] self.entries_view()[k]).path@ != path@,
            decreases self.entries_view().len() - i,
        {
            if crate::text::str_eq(self.entries[i].path.as_str(), path) {
                return Some(i);
            }
            i = i + 1;
        }
        None
    }

    /// Whether the connection at `path` is tracked.
    pub fn contains(&self, path: &str) -> (r: bool)
        ensures
            r == self.tracks(path@),
    {
        self.position(path).is_some()
    }

    /// Starts tracking a freshly bound connection.  The caller reconciles
    /// first, so the path is not yet tracked.
    pub fn insert(&mut self, conn: ActiveConnection)
        requires
            old(self).wf(),
            !old(self).tracks(conn.path@),
        ensures
            final(self).wf(),
            final(self).entries_view() == old(self).entries_view().push(conn),
    {
        self.entries.push(conn);
    }

    /// Applies an updated snapshot of one tracked connection.  A snapshot of
    /// an untracked path — a stray event of an object already dropped — is
    /// ignored rather than allowed to resurrect the entry.
    pub fn update_member(&mut self, conn: ActiveConnection) -> (updated: bool)
        requires
            old(self).wf(),
        ensures
            final(self).wf(),
            updated == old(self).tracks(conn.path@),
            updated ==> exists|i: int|
                {
                    &&& 0 <= i < old(self).entries_view().len()
                    &&& (#[trigger] old(self).entries_view()[i]).path@ == conn.path@
                    &&& final(self).entries_view() == old(self).entries_view().update(i, conn)
                },
            !updated ==> final(self).entries_view() == old(self).entries_view(),
    {
        match self.position(conn.path.as_str()) {
            Some(i) => {
                let ghost idx = i as int;
                self.entries.set(i, conn);
                proof {
                    assert(final(self).entries_view() == old(self).entries_view().update(
                        idx,
                        conn,
                    ));
                }
                true
            },
            None => false,
        }
    }

    /// Drops every tracked connection whose path the fresh complete list no
    /// longer names, releasing its subscription.  Dropping happens before the
    /// caller binds additions, so a reused identity is never doubly bound.
    pub fn reconcile_retain(&mut self, keep: &Vec<String>)
        requires
            old(self).wf(),
        ensures
            final(self).wf(),
            final(self).entries_view() == retained(old(self).entries_view(), keep@),
    {
        let mut kept: Vec<ActiveConnection> = Vec::new();
        let mut i: usize = 0;
        while i < self.entries.len()
            invariant
                0 <= i <= self.entries_view().len(),
                kept@ == retained(self.entries_view().subrange(0, i as int), keep@),
                self.wf(),
            decreases self.entries_view().len() - i,
        {
            let ghost prefix = self.entries_view().subrange(0, i as int);
            if tracker::list_holds(keep, self.entries[i].path.as_str()) {
                kept.push(self.entries[i].duplicate());
            }
            proof {
                assert(self.entries_view().subrange(0, i + 1 as int).drop_last() =~= prefix);
                assert(self.entries_view().subrange(0, i + 1 as int).last()
                    == self.entries_view()[i as int]);
            }
            i = i + 1;
        }
        proof {
            assert(self.entries_view().subrange(0, self.entries_view().len() as int)
                =~= self.entries_view());
        }
        self.entries = kept;
        proof {
            lemma_retained_wf(old(self).entries_view(), keep@);
        }
    }

    /// The paths of the fresh complete list that are not yet tracked: the
    /// connections the caller must now bind and insert, each once, in the
    /// provider's order.
    pub fn reconcile_additions(&self, paths: &Vec<String>) -> (r: Vec<String>)
        ensures
            r@.map_values(|s: String| s@) == tracker::addition_plan(self.path_list_spec(), paths@),
    {
        let current = self.path_list();
        tracker::additions(&current, paths)
    }

    /// The tracked paths as an identity list.
    pub closed spec fn path_list_spec(self) -> Seq<String> {
        self.entries@.map_values(|c: ActiveConnection| c.path)
    }

    /// Collects the tracked paths into an identity list.
    fn path_list(&self) -> (r: Vec<String>)
        ensures
            r@ == self.path_list_spec(),
    {
        let mut r: Vec<String> = Vec::new();
        let mut i: usize = 0;
        while i < self.entries.len()
            invariant
                0 <= i <= self.entries@.len(),
                r@ == self.entries@.subrange(0, i as int).map_values(
                    |c: ActiveConnection| c.path,
                ),
            decreases self.entries@.len() - i,
        {
            let ghost prefix = self.entries@.subrange(0, i as int);
            r.push(self.entries[i].path.clone());
            proof {
                assert(self.entries@.subrange(0, i + 1 as int).drop_last() =~= prefix);
                assert(r@ =~= self.entries@.subrange(0, i + 1 as int).map_values(
                    |c: ActiveConnection| c.path,
                ));
            }
            i = i + 1;
        }
        proof {
            assert(self.entries@.subrange(0, self.entries@.len() as int) =~= self.entries@);
        }
        r
    }

    /// The coalesced collection snapshot: every tracked connection's current
    /// state, in tracking order, republished whole after each change.
    pub fn snapshot(&self) -> (r: Vec<ActiveConnection>)
        ensures
            r@ == self.entries_view(),
    {
        let mut r: Vec<ActiveConnection> = Vec::new();
        let mut i: usize = 0;
        while i < self.entries.len()
            invariant
                0 <= i <= self.entries_view().len(),
                r@ == self.entries_view().subrange(0, i as int),
            decreases self.entries_view().len() - i,
        {
            r.push(self.entries[i].duplicate());
            proof {
                assert(r@ =~= self.entries_view().subrange(0, i + 1 as int));
            }
            i = i + 1;
        }
        proof {
            assert(self.entries_view().subrange(0, self.entries_view().len() as int)
                =~= self.entries_view());
        }
        r
    }
}

/// Retaining a sub-collection keeps paths unique.
proof fn lemma_retained_wf(entries: Seq<ActiveConnection>, keep: Seq<String>)
    requires
        forall|i: int, j: int|
            0 <= i < j < entries.len() ==> (#[trigger] entries[i]).path@ != (
            #[trigger] entries[j]).path@,
    ensures
        forall|i: int, j: int|
            0 <= i < j < retained(entries, keep).len() ==> (#[trigger] retained(entries, keep)[i]).path@
                != (#[trigger] retained(entries, keep)[j]).path@,
    decreases entries.len(),
{
    if entries.len() > 0 {
        lemma_retained_wf(entries.drop_last(), keep);
        lemma_retained_membership(entries.drop_last(), keep);
    }
}

/// Every retained entry comes from the unfiltered collection.
proof fn lemma_retained_membership(entries: Seq<ActiveConnection>, keep: Seq<String>)
    ensures
        forall|i: int|
            0 <= i < retained(entries, keep).len() ==> exists|j: int|
                0 <= j < entries.len() && entries[j] == #[trigger] retained(entries, keep)[i],
    decreases entries.len(),
{
    if entries.len() > 0 {
        lemma_retained_membership(entries.drop_last(), keep);
        assert forall|i: int| 0 <= i < retained(entries, keep).len() implies exists|j: int|
            0 <= j < entries.len() && entries[j] == #[trigger] retained(entries, keep)[i] by {
            let prev = retained(entries.drop_last(), keep);
            if i < prev.len() {
                let j = choose|j: int|
                    0 <= j < entries.drop_last().len() && entries.drop_last()[j] == prev[i];
                assert(entries[j] == retained(entries, keep)[i]);
            } else {
                assert(entries[entries.len() - 1] == retained(entries, keep)[i]);
            }
        }
    }
}

/// The longest suffix of a connection path that still shows context: at most
/// one separator, used when a path is logged or displayed.
pub open spec fn slash_count(s: Seq<char>) -> int
    decreases s.len(),
{
    if s.len() == 0 {
        0
    } else {
        (if s[0] == '/' {
            1int
        } else {
            0int
        }) + slash_count(s.skip(1))
    }
}

/// Shortens an object path for display: the suffix after the second-to-last
/// separator — object and parent — or the whole path when it has fewer than
/// two separators.
pub fn describe_path(path: &str) -> (r: &str)
    ensures
        exists|k: int|
            0 <= k <= path@.len() && r@ == #[trigger] path@.subrange(k, path@.len() as int),
        slash_count(r@) <= 1,
        r@.len() < path@.len() ==> path@[path@.len() - r@.len() - 1] == '/' && slash_count(
            path@.subrange(path@.len() - r@.len() - 1, path@.len() as int),
        ) == 2,
{
    let len = path.unicode_len();
    let mut j: usize = len;
    let mut count: u64 = 0;
    proof {
        assert(path@.subrange(len as int, len as int) =~= Seq::<char>::empty());
    }
    while j > 0
        invariant
            0 <= j <= len,
            len == path@.len(),
            count == slash_count(path@.subrange(j as int, len as int)),
            count <= 1,
        decreases j,
    {
        let c = path.get_char(j - 1);
        proof {
            assert(path@.subrange(j - 1, len as int).skip(1) =~= path@.subrange(
                j as int,
                len as int,
            ));
            assert(path@.subrange(j - 1, len as int)[0] == path@[j - 1]);
        }
        if c == '/' {
            if count == 1 {
                let r = path.substring_char(j, len);
                proof {
                    assert(r@ == path@.subrange(j as int, len as int));
                    assert(path@.len() - r@.len() - 1 == j - 1);
                }
                return r;
            }
            count = count + 1;
        }
        j = j - 1;
    }
    proof {
        assert(path@.subrange(0, len as int) =~= path@);
    }
    path
}

} // verus!
