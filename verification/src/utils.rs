//! Where an entry is filed and how it is found again: the directory of a
//! note, the time of a new entry, the editor to open it with, and the search
//! for a text in its lines.

use crate::clock::{
    bucket_minute, parse_clock, resolved, to_clock_time, EntryTime, TimeOfDay, MAX_BUCKET,
};
use crate::errors::{EditorError, TimeError};
use crate::text::{append, contains, equal, has, trim, trimmed};
use crate::trusted::{expand_tilde, tilde_outcome};
use vstd::prelude::*;

verus! {

/// What came of asking the system where `vim` is.
#[derive(Debug)]
pub struct WhichOutput {
    /// Whether the search ended well.
    pub success: bool,
    /// What it printed.
    pub stdout: String,
}

/// The path `directory/entry_name`.
pub open spec fn joined(directory: Seq<char>, entry_name: Seq<char>) -> Seq<char> {
    directory + "/"@ + entry_name
}

/// Whether one of the lines holds `text`.
pub open spec fn some_line_has(lines: Seq<String>, text: Seq<char>) -> bool {
    exists|i: int| 0 <= i < lines.len() && contains((#[trigger] lines[i])@, text)
}

/// The editor to use: the one that the environment names, and else the `vim`
/// that the system found, as it printed it, without the blanks around it.
pub open spec fn editor(editor_var: Option<String>, which_vim: Option<WhichOutput>) -> Result<
    Seq<char>,
    EditorError,
> {
    match editor_var {
        Some(named) => Ok(named@),
        None => match which_vim {
            Some(output) => if output.success {
                Ok(trimmed(output.stdout@))
            } else {
                Err(EditorError::Undetermined)
            },
            None => Err(EditorError::Undetermined),
        },
    }
}

/// Resolves the time that `time` asks for, the clock showing `now`.
pub fn get_datetime(time: &str, minute_bucket_size: u32, now: TimeOfDay) -> (r: Result<
    EntryTime,
    TimeError,
>)
    requires
        1 <= minute_bucket_size <= MAX_BUCKET,
    ensures
        r == resolved(time@, minute_bucket_size, now),
        r matches Ok(at) ==> at.time.minute % minute_bucket_size == 0,
        r matches Ok(at) ==> (now.minute <= 59 ==> at.time.minute <= 59),
{
    if equal(time, "now") || equal(time, "tomorrow") {
        return Ok(
            EntryTime {
                tomorrow: equal(time, "tomorrow"),
                time: TimeOfDay {
                    hour: now.hour,
                    minute: bucket_minute(now.minute, minute_bucket_size),
                    second: now.second,
                    nanosecond: now.nanosecond,
                },
            },
        );
    }
    match parse_clock(time) {
        None => Err(TimeError::UnrecognizedInput),
        Some(reading) => match to_clock_time(reading) {
            Err(e) => Err(e),
            Ok((hour, minute)) => Ok(
                EntryTime {
                    tomorrow: hour < now.hour || (hour == now.hour && minute < now.minute),
                    time: TimeOfDay {
                        hour,
                        minute: bucket_minute(minute, minute_bucket_size),
                        second: 0,
                        nanosecond: 0,
                    },
                },
            ),
        },
    }
}

/// The directory `entry_name` below `directory`.
pub fn join_directory(directory: &str, entry_name: &str) -> (path: String)
    ensures
        path@ == joined(directory@, entry_name@),
{
    let with_slash = append(directory, "/");
    append(with_slash.as_str(), entry_name)
}

/// The directory of the entries called `entry_name` below the note directory,
/// in which a leading `~` stands for the home directory.
pub fn get_directory(note_directory: &str, entry_name: &str) -> (path: String)
    ensures
        exists|expanded: Seq<char>|
            tilde_outcome(note_directory@, expanded) && path@ == #[trigger] joined(
                expanded,
                entry_name@,
            ),
        note_directory@.len() == 0 || note_directory@[0] != '~' ==> path@ == joined(
            note_directory@,
            entry_name@,
        ),
{
    let expanded = expand_tilde(note_directory);
    let path = join_directory(expanded.as_str(), entry_name);
    assert(path@ == joined(expanded@, entry_name@));
    path
}

/// Names the editor to open an entry with. `editor_var` is what the
/// environment holds under `EDITOR`; `which_vim` is what came of asking the
/// system for `vim`, `None` where it could not be asked.
pub fn get_editor(editor_var: Option<String>, which_vim: Option<WhichOutput>) -> (r: Result<
    String,
    EditorError,
>)
    ensures
        match editor(editor_var, which_vim) {
            Ok(name) => r matches Ok(found) && found@ == name,
            Err(e) => r == Err::<String, EditorError>(e),
        },
{
    match editor_var {
        Some(named) => Ok(named),
        None => match which_vim {
            Some(output) => {
                if output.success {
                    Ok(trim(output.stdout.as_str()).to_owned())
                } else {
                    Err(EditorError::Undetermined)
                }
            },
            None => Err(EditorError::Undetermined),
        },
    }
}

/// Tells whether one of the lines holds `text`.
pub fn has_text(text: &str, lines: &Vec<String>) -> (found: bool)
    ensures
        found == some_line_has(lines@, text@),
{
    let mut i: usize = 0;
    while i < lines.len()
        invariant
            i <= lines@.len(),
            forall|k: int| 0 <= k < i ==> !contains((#[trigger] lines@[k])@, text@),
        decreases lines@.len() - i,
    {
        if has(lines[i].as_str(), text) {
            return true;
        }
        i += 1;
    }
    false
}

} // verus!
