//! The run's configuration, from the command line and the environment.
use crate::error::Error;
use crate::paths::EDITOR_VAR;
use vstd::prelude::*;

verus! {

/// What a run does.
#[derive(Clone, Copy, Debug, PartialEq, Eq)]
pub enum Mode {
    /// Edit today's entry.
    Today,
    /// List the entries.
    List,
    /// Edit the entry at this index of the list.
    Show(usize),
}

/// The configuration of a run, fixed at its start.
#[derive(Clone, Copy, Debug, PartialEq, Eq)]
pub struct Config {
    /// Whether to report each step on the error output.
    pub debug: bool,
    pub mode: Mode,
}

/// The mode that the listing flag and the index option ask for.
pub open spec fn mode_of(list: bool, show: Option<usize>) -> Mode {
    if list {
        Mode::List
    } else {
        match show {
            Some(i) => Mode::Show(i),
            None => Mode::Today,
        }
    }
}

/// The configuration from the command line's values: the verbosity flag,
/// the listing flag and the index option, of which at most one of the last
/// two is given.
pub fn get_arguments(debug: bool, list: bool, show: Option<usize>) -> (r: Config)
    requires
        !(list && show is Some),
    ensures
        r.debug == debug,
        r.mode == mode_of(list, show),
{
    let mode = if list {
        Mode::List
    } else {
        match show {
            Some(i) => Mode::Show(i),
            None => Mode::Today,
        }
    };
    Config { debug, mode }
}

/// The editor command, from the value of `$EDITOR` (`None` where it is
/// unset); without it no entry can be edited.
pub fn get_editor(editor: Option<String>) -> (r: Result<String, Error>)
    ensures
        match r {
            Ok(e) => editor == Some(e),
            Err(err) => {
                &&& editor is None
                &&& err matches Error::RequiredEnvVarNotFound(v) && v@ == EDITOR_VAR@
            },
        },
{
    match editor {
        Some(e) => Ok(e),
        None => Err(Error::RequiredEnvVarNotFound(String::from_str(EDITOR_VAR))),
    }
}

} // verus!
