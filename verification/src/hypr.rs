//! The workspace mirror for the compositor.
//!
//! The compositor reports workspaces over two local sockets: one answers
//! queries and takes dispatch commands, the other pushes event lines of the
//! form `NAME>>ARG,ARG,...`.  The mirror keeps the workspace list of one
//! monitor and the selected workspace, refetching the whole list on the
//! structural events and following the selection events, and republishes a
//! coalesced snapshot after every change.

use vstd::prelude::*;

use crate::text;

verus! {

/// The reported state of one workspace.
#[derive(Clone, Copy, Debug, PartialEq, Eq, Structural)]
pub struct WorkspaceState {
    /// The workspace id; special workspaces carry negative ids.
    pub id: i64,
    /// The monitor the workspace is on.
    pub monitor_id: u64,
    /// How many windows the workspace holds.
    pub window_amount: u64,
    /// Whether the workspace has a fullscreen window.
    pub fullscreen: bool,
}

/// A connection point to the compositor: the runtime directory both sockets
/// live in.
#[derive(Clone, Debug)]
pub struct HyprlandInstance {
    /// The instance's socket directory.
    pub base: String,
}

impl HyprlandInstance {
    /// Locates an instance from the runtime directory and the instance
    /// signature the environment names.
    pub fn locate(runtime_dir: &str, instance: &str) -> (r: Self)
        ensures
            r.base@ == runtime_dir@ + "/hypr/"@ + instance@,
    {
        let mut base = runtime_dir.to_owned();
        base.append("/hypr/");
        base.append(instance);
        HyprlandInstance { base }
    }

    /// The path of the command socket.
    pub fn command_socket(&self) -> (r: String)
        ensures
            r@ == self.base@ + "/.socket.sock"@,
    {
        let mut path = self.base.clone();
        path.append("/.socket.sock");
        path
    }

    /// The path of the event socket.
    pub fn event_socket(&self) -> (r: String)
        ensures
            r@ == self.base@ + "/.socket2.sock"@,
    {
        let mut path = self.base.clone();
        path.append("/.socket2.sock");
        path
    }
}

/// The payload a command is framed in: the JSON marker before the command
/// text.
pub fn command_payload(command: &str) -> (r: String)
    ensures
        r@ == "j/"@ + command@,
{
    let mut payload = String::from_str("j/");
    payload.append(command);
    payload
}

/// The dispatch command selecting the workspace with the given id.
pub fn select_workspace_command(id: i64) -> (r: String)
    ensures
        r@ == "dispatch workspace "@ + text::decimal_signed(id as int),
{
    let mut command = String::from_str("dispatch workspace ");
    let digits = text::format_i64(id);
    command.append(digits.as_str());
    command
}

/// The dispatch command selecting a workspace relative to the current one:
/// a positive offset is written with an explicit plus sign.
pub fn select_workspace_relative_command(offset: i64) -> (r: String)
    ensures
        r@ == "dispatch workspace m"@ + (if offset > 0 {
            "+"@
        } else {
            Seq::<char>::empty()
        }) + text::decimal_signed(offset as int),
{
    let mut command = String::from_str("dispatch workspace m");
    if offset > 0 {
        command.append("+");
        proof {
            reveal_strlit("+");
        }
    }
    let digits = text::format_i64(offset);
    command.append(digits.as_str());
    command
}

/// The position of the first `>>` marker in an event line, or at least
/// `len - 1` when the line has none.
pub open spec fn first_marker(s: Seq<char>) -> nat
    decreases s.len(),
{
    if s.len() < 2 {
        s.len()
    } else if s[0] == '>' && s[1] == '>' {
        0
    } else {
        1 + first_marker(s.skip(1))
    }
}

/// The first marker is where the first `>` pair stands.
proof fn lemma_marker_found(s: Seq<char>, k: int)
    requires
        0 <= k,
        k + 1 < s.len(),
        s[k] == '>',
        s[k + 1] == '>',
        forall|m: int| 0 <= m < k ==> !((#[trigger] s[m]) == '>' && s[m + 1] == '>'),
    ensures
        first_marker(s) == k,
    decreases k,
{
    if k > 0 {
        assert(!(s[0] == '>' && s[1] == '>'));
        assert forall|m: int| 0 <= m < k - 1 implies !((#[trigger] s.skip(1)[m]) == '>' && s.skip(
            1,
        )[m + 1] == '>') by {
            assert(s.skip(1)[m] == s[m + 1]);
            assert(s.skip(1)[m + 1] == s[m + 2]);
        }
        assert(s.skip(1)[k - 1] == s[k]);
        assert(s.skip(1)[k] == s[k + 1]);
        lemma_marker_found(s.skip(1), k - 1);
    }
}

/// A line without a `>` pair has no marker.
proof fn lemma_marker_missing(s: Seq<char>)
    requires
        forall|m: int| 0 <= m && m + 1 < s.len() ==> !((#[trigger] s[m]) == '>' && s[m + 1] == '>'),
    ensures
        first_marker(s) + 1 >= s.len(),
    decreases s.len(),
{
    if s.len() >= 2 {
        assert forall|m: int| 0 <= m && m + 1 < s.skip(1).len() implies !((#[trigger] s.skip(
            1,
        )[m]) == '>' && s.skip(1)[m + 1] == '>') by {
            assert(s.skip(1)[m] == s[m + 1]);
            assert(s.skip(1)[m + 1] == s[m + 2]);
        }
        lemma_marker_missing(s.skip(1));
    }
}

/// Splits an event line `NAME>>ARG,ARG,...` into the event name and its
/// comma-separated arguments.  A line without the marker is no event; with
/// several markers, only the part up to the second one carries arguments.
pub fn parse_event_line(line: &str) -> (r: Option<(String, Vec<String>)>)
    ensures
        ({
            let s = line@;
            let p = first_marker(s) as int;
            match r {
                None => p + 1 >= s.len(),
                Some((event, args)) => {
                    &&& p + 1 < s.len()
                    &&& event@ == s.subrange(0, p)
                    &&& ({
                        let rest = s.subrange(p + 2, s.len() as int);
                        let q = first_marker(rest) as int;
                        let body = if q + 1 < rest.len() {
                            rest.subrange(0, q)
                        } else {
                            rest
                        };
                        args@.map_values(|a: String| a@) == text::split_at(body, ',')
                    })
                },
            }
        }),
{
    let len = line.unicode_len();
    let p = match find_marker(line) {
        Some(p) => p,
        None => {
            return None;
        },
    };
    let event = line.substring_char(0, p).to_owned();
    let rest = line.substring_char(p + 2, len);
    let body = match find_marker(rest) {
        Some(q) => rest.substring_char(0, q),
        None => rest,
    };
    let args = text::split_char(body, ',');
    Some((event, args))
}

/// Finds the first `>>` marker of a line.
fn find_marker(line: &str) -> (r: Option<usize>)
    ensures
        ({
            let s = line@;
            match r {
                Some(p) => p as int == first_marker(s) && p + 1 < s.len(),
                None => first_marker(s) + 1 >= s.len(),
            }
        }),
{
    let len = line.unicode_len();
    if len < 2 {
        proof {
            lemma_marker_missing(line@);
        }
        return None;
    }
    let mut i: usize = 0;
    while i + 1 < len
        invariant
            0 <= i,
            i + 1 <= len,
            len == line@.len(),
            forall|m: int| 0 <= m < i ==> !((#[trigger] line@[m]) == '>' && line@[m + 1] == '>'),
        decreases len - i,
    {
        if line.get_char(i) == '>' && line.get_char(i + 1) == '>' {
            proof {
                lemma_marker_found(line@, i as int);
            }
            return Some(i);
        }
        i = i + 1;
    }
    proof {
        lemma_marker_missing(line@);
    }
    None
}

/// Whether an event is structural: it changes which workspaces exist or
/// what they hold, so the whole list is refetched.
pub open spec fn is_refetch_event(s: Seq<char>) -> bool {
    ||| s == "openwindow"@
    ||| s == "closewindow"@
    ||| s == "movewindow"@
    ||| s == "fullscreen"@
    ||| s == "moveworkspace"@
    ||| s == "createworkspace"@
    ||| s == "destroyworkspace"@
    ||| s == "monitorremoved"@
    ||| s == "monitoradded"@
}

/// Tests an event name for the structural events.
fn refetch_event(event: &str) -> (r: bool)
    ensures
        r == is_refetch_event(event@),
{
    text::str_eq(event, "openwindow") || text::str_eq(event, "closewindow") || text::str_eq(
        event,
        "movewindow",
    ) || text::str_eq(event, "fullscreen") || text::str_eq(event, "moveworkspace")
        || text::str_eq(event, "createworkspace") || text::str_eq(event, "destroyworkspace")
        || text::str_eq(event, "monitorremoved") || text::str_eq(event, "monitoradded")
}

/// The workspaces of one monitor, special workspaces left out.
pub open spec fn kept_workspaces(list: Seq<WorkspaceState>, monitor: u64) -> Seq<WorkspaceState>
    decreases list.len(),
{
    if list.len() == 0 {
        Seq::empty()
    } else {
        let init = kept_workspaces(list.drop_last(), monitor);
        if list.last().monitor_id == monitor && list.last().id >= 0 {
            init.push(list.last())
        } else {
            init
        }
    }
}

/// Keeps the workspaces of one monitor, leaving special workspaces out.
pub fn retain_monitor(list: &Vec<WorkspaceState>, monitor: u64) -> (r: Vec<WorkspaceState>)
    ensures
        r@ == kept_workspaces(list@, monitor),
{
    let mut r: Vec<WorkspaceState> = Vec::new();
    let mut i: usize = 0;
    while i < list.len()
        invariant
            0 <= i <= list@.len(),
            r@ == kept_workspaces(list@.subrange(0, i as int), monitor),
        decreases list@.len() - i,
    {
        let ghost prefix = list@.subrange(0, i as int);
        if list[i].monitor_id == monitor && list[i].id >= 0 {
            r.push(list[i]);
        }
        proof {
            assert(list@.subrange(0, i + 1 as int).drop_last() =~= prefix);
            assert(list@.subrange(0, i + 1 as int).last() == list@[i as int]);
        }
        i = i + 1;
    }
    proof {
        assert(list@.subrange(0, list@.len() as int) =~= list@);
    }
    r
}

/// What the worker does with one event.
#[derive(Clone, Copy, Debug, PartialEq, Eq, Structural)]
pub enum WorkspaceAction {
    /// Republish the current snapshot.
    Publish,
    /// Refetch the whole workspace list, then republish.
    Refetch,
    /// The event says nothing about workspaces: deliver nothing.
    Ignore,
    /// The event is malformed beyond use: end the stream.
    Halt,
}

/// The mirror of one monitor's workspaces plus the selected workspace.
pub struct WorkspaceMirror {
    /// The currently selected workspace.
    pub selected: i64,
    /// The tracked workspaces, in the provider's order.
    pub workspaces: Vec<WorkspaceState>,
    /// The monitor being mirrored.
    pub monitor: u64,
}

impl WorkspaceMirror {
    /// Whether a workspace with the given id is tracked.
    pub open spec fn has_workspace(self, id: i64) -> bool {
        exists|k: int|
            0 <= k < self.workspaces@.len() && (#[trigger] self.workspaces@[k]).id == id
    }

    /// Starts the mirror from the initial enumeration: the selected
    /// workspace and the monitor's list.
    pub fn new(selected: i64, list: &Vec<WorkspaceState>, monitor: u64) -> (r: Self)
        ensures
            r.selected == selected,
            r.monitor == monitor,
            r.workspaces@ == kept_workspaces(list@, monitor),
    {
        WorkspaceMirror { selected, workspaces: retain_monitor(list, monitor), monitor }
    }

    /// Applies one event.  A selection event moves the selection to the
    /// named workspace if it is tracked — a selection of an untracked
    /// workspace republishes unchanged — and a structural event asks for a
    /// refetch; anything else is ignored.  A selection event whose argument
    /// is missing or not a number ends the stream.
    pub fn on_event(&mut self, event: &str, args: &Vec<String>) -> (r: WorkspaceAction)
        ensures
            final(self).workspaces == old(self).workspaces,
            final(self).monitor == old(self).monitor,
            event@ == "workspacev2"@ ==> ({
                if args@.len() == 0 {
                    r is Halt && final(self).selected == old(self).selected
                } else {
                    let first = args@[0]@;
                    if text::is_signed_numeral(first) && text::signed_value(first) <= i64::MAX
                        && text::signed_value(first) >= i64::MIN {
                        &&& r is Publish
                        &&& final(self).selected == (if old(self).has_workspace(
                            text::signed_value(first) as i64,
                        ) {
                            text::signed_value(first) as i64
                        } else {
                            old(self).selected
                        })
                    } else {
                        r is Halt && final(self).selected == old(self).selected
                    }
                }
            }),
            event@ != "workspacev2"@ ==> *final(self) == *old(self) && r == (
            if is_refetch_event(event@) {
                WorkspaceAction::Refetch
            } else {
                WorkspaceAction::Ignore
            }),
    {
        if text::str_eq(event, "workspacev2") {
            if args.len() == 0 {
                return WorkspaceAction::Halt;
            }
            let next = match text::parse_i64(args[0].as_str()) {
                Some(next) => next,
                None => {
                    return WorkspaceAction::Halt;
                },
            };
            let mut k: usize = 0;
            while k < self.workspaces.len()
                invariant
                    0 <= k <= self.workspaces@.len(),
                    *self == *old(self),
                    forall|m: int|
                        0 <= m < k ==> (#[trigger] self.workspaces@[m]).id != next,
                decreases self.workspaces@.len() - k,
            {
                if self.workspaces[k].id == next {
                    self.selected = next;
                    return WorkspaceAction::Publish;
                }
                k = k + 1;
            }
            WorkspaceAction::Publish
        } else if refetch_event(event) {
            WorkspaceAction::Refetch
        } else {
            WorkspaceAction::Ignore
        }
    }

    /// Replaces the workspace list with a fresh enumeration, keeping only
    /// this monitor's ordinary workspaces; the selection stays.
    pub fn apply_refetch(&mut self, list: &Vec<WorkspaceState>)
        ensures
            final(self).selected == old(self).selected,
            final(self).monitor == old(self).monitor,
            final(self).workspaces@ == kept_workspaces(list@, old(self).monitor),
    {
        self.workspaces = retain_monitor(list, self.monitor);
    }

    /// The coalesced snapshot to publish: the selection and the full list.
    pub fn snapshot(&self) -> (r: (i64, Vec<WorkspaceState>))
        ensures
            r.0 == self.selected,
            r.1@ == self.workspaces@,
    {
        let mut list: Vec<WorkspaceState> = Vec::new();
        let mut i: usize = 0;
        while i < self.workspaces.len()
            invariant
                0 <= i <= self.workspaces@.len(),
                list@ == self.workspaces@.subrange(0, i as int),
            decreases self.workspaces@.len() - i,
        {
            list.push(self.workspaces[i]);
            proof {
                assert(list@ =~= self.workspaces@.subrange(0, i + 1 as int));
            }
            i = i + 1;
        }
        proof {
            assert(self.workspaces@.subrange(0, self.workspaces@.len() as int)
                =~= self.workspaces@);
        }
        (self.selected, list)
    }
}

} // verus!
