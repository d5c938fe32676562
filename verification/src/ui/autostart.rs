//! Starting with the user's session. The registry value is the only record of
//! it: it is there or it is not.

use crate::ui::wide::{self, strip_zeros, wide};
use vstd::prelude::*;

verus! {

/// The registry key that lists what starts with the session.
pub const RUN_KEY: &'static str = "Software\\Microsoft\\Windows\\CurrentVersion\\Run";

/// The name of the value under it.
pub const VALUE_NAME: &'static str = "airtalk";

/// The command that a registry value holds, given the value's code units: none
/// if the value is missing or has no bytes.
pub fn read_value(raw: Option<Vec<u16>>) -> (r: Option<Vec<u16>>)
    ensures
        match raw {
            Some(units) => if units@.len() > 0 {
                r matches Some(got) && got@ == wide::without_zeros(units@)
            } else {
                r is None
            },
            None => r is None,
        },
{
    match raw {
        Some(units) => {
            if units.len() == 0 {
                return None;
            }
            let mut units = units;
            strip_zeros(&mut units);
            Some(units)
        },
        None => None,
    }
}

/// Whether autostart is on: the value is there and not empty.
pub fn is_enabled(raw: Option<Vec<u16>>) -> (r: bool)
    ensures
        r == (raw matches Some(units) && wide::without_zeros(units@).len() > 0),
{
    match read_value(raw) {
        Some(units) => units.len() > 0,
        None => false,
    }
}

/// What is to be done to the registry value.
#[derive(Debug)]
pub enum AutostartChange {
    /// Write these code units, the closing zero with them.
    Write(Vec<u16>),
    Delete,
}

/// The command for an executable: its path in quotes, so that spaces in it
/// survive.
pub open spec fn command_for(exe: Seq<char>) -> Seq<char> {
    "\""@ + exe + "\""@
}

/// Registers the executable.
pub fn enable(exe: &str) -> (r: AutostartChange)
    ensures
        r matches AutostartChange::Write(units) && units@ == wide::utf16(command_for(exe@)).push(0),
{
    AutostartChange::Write(wide("\"".to_owned().concat(exe).concat("\"").as_str()))
}

/// Removes the registration.
pub fn disable() -> (r: AutostartChange)
    ensures
        r == AutostartChange::Delete,
{
    AutostartChange::Delete
}

/// Registers the executable or removes the registration.
pub fn set(enabled: bool, exe: &str) -> (r: AutostartChange)
    ensures
        enabled ==> (r matches AutostartChange::Write(units) && units@ == wide::utf16(
            command_for(exe@),
        ).push(0)),
        !enabled ==> r == AutostartChange::Delete,
{
    if enabled {
        enable(exe)
    } else {
        disable()
    }
}

/// Whether a removal with this result code left no registration: it succeeded,
/// or there was nothing to remove.
pub fn removed(code: u32) -> (r: bool)
    ensures
        r == (code == 0 || code == 2),
{
    code == 0 || code == 2
}

/// What [`set`] writes, [`is_enabled`] reads.
pub proof fn law_set_is_seen(exe: Seq<char>)
    ensures
        wide::without_zeros(wide::utf16(command_for(exe)).push(0)) == wide::utf16(command_for(exe)),
        wide::utf16(command_for(exe)).len() > 0,
{
    reveal_strlit("\"");
    let command = command_for(exe);
    assert(command.last() == '"');
    crate::ui::wide::law_closing_zero_comes_off(command);
}

/// The command is the executable's path with a double quote on either side.
pub proof fn law_the_path_is_quoted(exe: Seq<char>)
    ensures
        command_for(exe).len() == exe.len() + 2,
        command_for(exe).first() == '"',
        command_for(exe).last() == '"',
        command_for(exe).subrange(1, exe.len() as int + 1) == exe,
{
    reveal_strlit("\"");
    assert(command_for(exe).subrange(1, exe.len() as int + 1) =~= exe);
}

} // verus!
