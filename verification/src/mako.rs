//! The notification-daemon mode mirror.
//!
//! The daemon reports which modes — do-not-disturb and friends — are active;
//! the mirror keeps the current list and computes the list to send back when
//! the user disables one mode.

use vstd::prelude::*;

use crate::text;

verus! {

/// A message the mode mirror reacts to.
#[derive(Clone, Debug)]
pub enum MakoMessage {
    /// The daemon reported a new list of active modes.
    Modes(Vec<String>),
    /// The user asked to disable one mode.
    Disable(String),
}

/// The active modes with every occurrence of `mode` left out.
pub open spec fn modes_less(modes: Seq<String>, mode: Seq<char>) -> Seq<Seq<char>>
    decreases modes.len(),
{
    if modes.len() == 0 {
        Seq::empty()
    } else {
        let init = modes_less(modes.drop_last(), mode);
        if modes.last()@ == mode {
            init
        } else {
            init.push(modes.last()@)
        }
    }
}

/// The mode mirror: the modes the daemon currently reports active.
pub struct Mako {
    /// The active modes, in the daemon's order.
    pub modes: Vec<String>,
}

impl Mako {
    /// A mirror that has seen no mode report yet.
    pub fn new() -> (r: Self)
        ensures
            r.modes@ == Seq::<String>::empty(),
    {
        Mako { modes: Vec::new() }
    }

    /// Takes the daemon's fresh mode list.
    pub fn set_modes(&mut self, modes: Vec<String>)
        ensures
            final(self).modes == modes,
    {
        self.modes = modes;
    }

    /// The mode list to send back when one mode is disabled: the current
    /// list with that mode left out.
    pub fn modes_without(&self, mode: &str) -> (r: Vec<String>)
        ensures
            r@.map_values(|m: String| m@) == modes_less(self.modes@, mode@),
    {
        let mut r: Vec<String> = Vec::new();
        let mut i: usize = 0;
        proof {
            assert(r@.map_values(|m: String| m@) =~= modes_less(self.modes@.subrange(0, 0), mode@));
        }
        while i < self.modes.len()
            invariant
                0 <= i <= self.modes@.len(),
                r@.map_values(|m: String| m@) == modes_less(
                    self.modes@.subrange(0, i as int),
                    mode@,
                ),
            decreases self.modes@.len() - i,
        {
            let ghost prefix = self.modes@.subrange(0, i as int);
            if !text::str_eq(self.modes[i].as_str(), mode) {
                r.push(self.modes[i].clone());
            }
            proof {
                assert(self.modes@.subrange(0, i + 1 as int).drop_last() =~= prefix);
                assert(self.modes@.subrange(0, i + 1 as int).last() == self.modes@[i as int]);
                assert(r@.map_values(|m: String| m@) =~= modes_less(
                    self.modes@.subrange(0, i + 1 as int),
                    mode@,
                ));
            }
            i = i + 1;
        }
        proof {
            assert(self.modes@.subrange(0, self.modes@.len() as int) =~= self.modes@);
        }
        r
    }
}

} // verus!
