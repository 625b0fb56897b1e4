//! The running-process mirror over the process filesystem.
//!
//! Processes are enumerated from numeric directory names; each carries a
//! short name and a NUL-separated command line.  The mirror decodes one
//! entry's files into a snapshot and matches the configured indicator
//! prefixes against the running command lines: each indicator pins the first
//! process whose command line starts with its prefix.

use vstd::prelude::*;

use crate::text;

verus! {

/// Information about one running process.
#[derive(Clone, Debug)]
pub struct ProcessInfo {
    /// Process id of the process.
    pub pid: u64,
    /// Name of the process, not the executable.
    pub name: String,
    /// Command line of the process, space separated.
    pub cmdline: String,
}

/// The command line with the kernel's NUL separators turned into spaces.
pub open spec fn despaced(s: Seq<char>) -> Seq<char> {
    s.map_values(
        |c: char|
            if c == '\u{0}' {
                ' '
            } else {
                c
            },
    )
}

/// Turns the NUL separators of a raw command line into spaces.
fn replace_nul(s: &str) -> (r: String)
    ensures
        r@ == despaced(s@),
{
    let len = s.unicode_len();
    let mut out = String::new();
    let mut i: usize = 0;
    while i < len
        invariant
            0 <= i <= len,
            len == s@.len(),
            out@ == despaced(s@.subrange(0, i as int)),
        decreases len - i,
    {
        if s.get_char(i) == '\u{0}' {
            out.append(" ");
            proof {
                reveal_strlit(" ");
            }
        } else {
            let piece = s.substring_char(i, i + 1);
            out.append(piece);
        }
        proof {
            assert(out@ =~= despaced(s@.subrange(0, i + 1 as int)));
        }
        i = i + 1;
    }
    proof {
        assert(s@.subrange(0, len as int) =~= s@);
    }
    out
}

impl ProcessInfo {
    /// Decodes one process entry: the directory name must be a numeric
    /// process id, the name file is trimmed, and the command line has its
    /// NUL separators spaced out before trimming.
    pub fn decode(pid_text: &str, comm: &str, cmdline: &str) -> (r: Option<Self>)
        ensures
            match r {
                Some(p) => {
                    &&& text::is_numeral(pid_text@)
                    &&& text::digits_value(pid_text@) <= u64::MAX
                    &&& p.pid == text::digits_value(pid_text@)
                    &&& p.name@ == text::trimmed(comm@)
                    &&& p.cmdline@ == text::trimmed(despaced(cmdline@))
                },
                None => !text::is_numeral(pid_text@) || text::digits_value(pid_text@) > u64::MAX,
            },
    {
        let pid = match text::parse_u64(pid_text) {
            Some(pid) => pid,
            None => {
                return None;
            },
        };
        let name = text::trim(comm).to_owned();
        let replaced = replace_nul(cmdline);
        let cmdline = text::trim(replaced.as_str()).to_owned();
        Some(ProcessInfo { pid, name, cmdline })
    }

    /// An exact copy of this snapshot.
    pub fn duplicate(&self) -> (r: Self)
        ensures
            r == *self,
    {
        ProcessInfo { pid: self.pid, name: self.name.clone(), cmdline: self.cmdline.clone() }
    }
}

/// Whether `s` starts with the prefix `p`.
pub open spec fn starts_with(s: Seq<char>, p: Seq<char>) -> bool {
    s.len() >= p.len() && s.subrange(0, p.len() as int) == p
}

/// Tests whether a command line starts with an indicator's prefix.
pub fn str_starts_with(s: &str, p: &str) -> (r: bool)
    ensures
        r == starts_with(s@, p@),
{
    let slen = s.unicode_len();
    let plen = p.unicode_len();
    if slen < plen {
        return false;
    }
    let head = s.substring_char(0, plen);
    text::str_eq(head, p)
}

/// The pid of the first process whose command line starts with `prefix`.
pub open spec fn matching_pid(procs: Seq<ProcessInfo>, prefix: Seq<char>) -> Option<u64>
    decreases procs.len(),
{
    if procs.len() == 0 {
        None
    } else if starts_with(procs[0].cmdline@, prefix) {
        Some(procs[0].pid)
    } else {
        matching_pid(procs.skip(1), prefix)
    }
}

/// The indicators currently running: for each configured pair of command
/// prefix and icon name, the first matching process's id with that icon, in
/// configuration order; indicators with no match are left out.
pub open spec fn running_indicators(
    indicators: Seq<(String, String)>,
    procs: Seq<ProcessInfo>,
) -> Seq<(u64, Seq<char>)>
    decreases indicators.len(),
{
    if indicators.len() == 0 {
        Seq::empty()
    } else {
        let init = running_indicators(indicators.drop_last(), procs);
        match matching_pid(procs, indicators.last().0@) {
            Some(pid) => init.push((pid, indicators.last().1@)),
            None => init,
        }
    }
}

/// Finds the first process whose command line starts with `prefix`.
fn find_matching_pid(procs: &Vec<ProcessInfo>, prefix: &str) -> (r: Option<u64>)
    ensures
        r == matching_pid(procs@, prefix@),
{
    let mut i: usize = 0;
    proof {
        assert(procs@.skip(0) =~= procs@);
    }
    while i < procs.len()
        invariant
            0 <= i <= procs@.len(),
            matching_pid(procs@, prefix@) == matching_pid(procs@.skip(i as int), prefix@),
        decreases procs@.len() - i,
    {
        proof {
            assert(procs@.skip(i as int)[0] == procs@[i as int]);
            assert(procs@.skip(i as int).skip(1) =~= procs@.skip(i + 1 as int));
        }
        if str_starts_with(procs[i].cmdline.as_str(), prefix) {
            return Some(procs[i].pid);
        }
        i = i + 1;
    }
    None
}

/// Matches the configured indicators against the running processes.
pub fn match_indicators(indicators: &Vec<(String, String)>, procs: &Vec<ProcessInfo>) -> (r: Vec<
    (u64, String),
>)
    ensures
        r@.map_values(|t: (u64, String)| (t.0, t.1@)) == running_indicators(indicators@, procs@),
{
    let mut r: Vec<(u64, String)> = Vec::new();
    let mut i: usize = 0;
    proof {
        assert(r@.map_values(|t: (u64, String)| (t.0, t.1@)) =~= running_indicators(
            indicators@.subrange(0, 0),
            procs@,
        ));
    }
    while i < indicators.len()
        invariant
            0 <= i <= indicators@.len(),
            r@.map_values(|t: (u64, String)| (t.0, t.1@)) == running_indicators(
                indicators@.subrange(0, i as int),
                procs@,
            ),
        decreases indicators@.len() - i,
    {
        let ghost prefix = indicators@.subrange(0, i as int);
        match find_matching_pid(procs, indicators[i].0.as_str()) {
            Some(pid) => {
                r.push((pid, indicators[i].1.clone()));
            },
            None => {},
        }
        proof {
            assert(indicators@.subrange(0, i + 1 as int).drop_last() =~= prefix);
            assert(indicators@.subrange(0, i + 1 as int).last() == indicators@[i as int]);
            assert(r@.map_values(|t: (u64, String)| (t.0, t.1@)) =~= running_indicators(
                indicators@.subrange(0, i + 1 as int),
                procs@,
            ));
        }
        i = i + 1;
    }
    proof {
        assert(indicators@.subrange(0, indicators@.len() as int) =~= indicators@);
    }
    r
}

} // verus!
