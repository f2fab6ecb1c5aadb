//! What a command that starts a worker finds and checks first.
use vstd::prelude::*;

use crate::busy::{blocker, busy_text, check_busy, CommandGroups};
use crate::config::Config;
use crate::double::Double;
use crate::json::{opt_text, Json, JsonV};
use crate::text::texts;
use crate::wire::{double_field, get_double, get_uint, uint_field};

verus! {

/// What a command finds when it is launched.
pub struct Launch<'a> {
    pub groups: &'a CommandGroups,
    pub running: &'a Vec<String>,
    /// Why the configuration cannot be used, if it cannot.
    pub cfg_fault: &'a Option<String>,
    pub cfg: &'a Config,
    pub playback: &'a Vec<String>,
    pub capture: &'a Vec<String>,
}

impl<'a> Launch<'a> {
    /// Another worker or an unusable configuration keeps `cmd` from starting.
    pub open spec fn blocked(self, cmd: Seq<char>) -> Option<Seq<char>> {
        match blocker(self.groups, texts(self.running@), cmd) {
            Some(name) => Some(busy_text(name)),
            None => opt_text(*self.cfg_fault),
        }
    }

    /// The reason that keeps `cmd` from starting.
    pub fn check(&self, cmd: &str) -> (r: Option<String>)
        ensures
            opt_text(r) == self.blocked(cmd@),
    {
        match check_busy(self.groups, self.running, cmd) {
            Some(msg) => Some(msg),
            None => match self.cfg_fault {
                Some(e) => Some(e.clone()),
                None => None,
            },
        }
    }
}

/// A number of a request, or the given one.
pub open spec fn number_or(cmd: JsonV, key: Seq<char>, default: Double) -> Double {
    match double_field(cmd, key) {
        Some(x) => x,
        None => default,
    }
}

/// A number of a request, or the given one.
pub fn get_number(cmd: &Json, key: &str, default: Double) -> (r: Double)
    ensures
        r == number_or(cmd@, key@, default),
{
    match get_double(cmd, key) {
        Some(x) => x,
        None => default,
    }
}

/// An unsigned number of a request, or the given one.
pub open spec fn count_or(cmd: JsonV, key: Seq<char>, default: u64) -> u64 {
    match uint_field(cmd, key) {
        Some(n) => n,
        None => default,
    }
}

/// An unsigned number of a request, or the given one.
pub fn get_count(cmd: &Json, key: &str, default: u64) -> (r: u64)
    ensures
        r == count_or(cmd@, key@, default),
{
    match get_uint(cmd, key) {
        Some(n) => n,
        None => default,
    }
}

/// A busy daemon is told before an unusable configuration; a command starts
/// exactly where neither stands in its way.
pub proof fn a_busy_daemon_is_told_first<'a>(found: Launch<'a>, cmd: Seq<char>)
    ensures
        blocker(found.groups, texts(found.running@), cmd) matches Some(name) ==> found.blocked(cmd)
            == Some(busy_text(name)),
        blocker(found.groups, texts(found.running@), cmd) is None ==> {
            &&& *found.cfg_fault matches Some(why) ==> found.blocked(cmd) == Some(why@)
            &&& *found.cfg_fault is None ==> found.blocked(cmd) is None
        },
{
}

/// What a request says of a number wins over the default.
pub proof fn requests_win_over_defaults(cmd: JsonV, key: Seq<char>, x: Double, n: u64)
    ensures
        double_field(cmd, key) == Some(number_or(cmd, key, x)) || (double_field(cmd, key) is None
            && number_or(cmd, key, x) == x),
        uint_field(cmd, key) == Some(count_or(cmd, key, n)) || (uint_field(cmd, key) is None
            && count_or(cmd, key, n) == n),
{
}

} // verus!
