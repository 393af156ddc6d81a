//! The interactive commands and how a typed line is read into one.

use vstd::prelude::*;

verus! {

use crate::error::CommandError;
use crate::num::dec_value_of;
use crate::num::parse_usize;
use crate::preprocess::after_token;
use crate::preprocess::first_token;
use crate::preprocess::next_token;
use crate::text::find_first;
use crate::text::find_sub;
use crate::text::trim_ascii_ws;
use crate::text::trim_ws_spec;
use vstd::slice::slice_subrange;
use vstd::string::StringSliceAdditionalSpecFns;

/// One command of the interactive loop.
pub enum Command {
    /// Show the command list.
    Help,
    /// Leave the loop.
    Exit,
    /// Read the loaded file again.
    Reload,
    /// Load the named file.
    Load(Vec<u8>),
    /// Let the named character speak.
    Char(Vec<u8>),
    /// Generate a response.
    Gen,
    /// Take the last response back and generate another.
    Swipe,
    /// Take the last prompt change back.
    Undo,
    /// Redo the last undone change.
    Redo,
    /// List the responses recorded for the current prompt.
    SwipeList,
    /// Take the recorded response with this index.
    SwipeIndex(usize),
}

/// A command, as byte sequences.
pub enum CommandView {
    Help,
    Exit,
    Reload,
    Load(Seq<u8>),
    Char(Seq<u8>),
    Gen,
    Swipe,
    Undo,
    Redo,
    SwipeList,
    SwipeIndex(usize),
}

/// The byte sequences a command holds.
pub open spec fn command_view(c: Command) -> CommandView {
    match c {
        Command::Help => CommandView::Help,
        Command::Exit => CommandView::Exit,
        Command::Reload => CommandView::Reload,
        Command::Load(f) => CommandView::Load(f@),
        Command::Char(n) => CommandView::Char(n@),
        Command::Gen => CommandView::Gen,
        Command::Swipe => CommandView::Swipe,
        Command::Undo => CommandView::Undo,
        Command::Redo => CommandView::Redo,
        Command::SwipeList => CommandView::SwipeList,
        Command::SwipeIndex(i) => CommandView::SwipeIndex(i),
    }
}

/// How a typed line reads as a command.  The first word picks the command;
/// `load` takes an optional file and falls back to a reload; `char` takes
/// everything after the first space, trimmed, as a name; `swipe` alone
/// swipes, with `list` it lists, with a number it picks.
pub open spec fn command_spec_of(s: Seq<u8>) -> Result<CommandView, CommandError> {
    let w = first_token(s);
    if w.len() == 0 {
        Err(CommandError::Empty)
    } else if w == "help".spec_bytes() {
        Ok(CommandView::Help)
    } else if w == "exit".spec_bytes() {
        Ok(CommandView::Exit)
    } else if w == "load".spec_bytes() {
        if first_token(after_token(s)).len() > 0 {
            Ok(CommandView::Load(first_token(after_token(s))))
        } else {
            Ok(CommandView::Reload)
        }
    } else if w == "reload".spec_bytes() {
        Ok(CommandView::Reload)
    } else if w == "char".spec_bytes() {
        match find_first(s, seq![32u8]) {
            None => Err(CommandError::CharNeedsName),
            Some(sp) => {
                let name = trim_ws_spec(s.skip(sp));
                if name.len() == 0 {
                    Err(CommandError::CharNeedsName)
                } else {
                    Ok(CommandView::Char(name))
                }
            },
        }
    } else if w == "swipe".spec_bytes() {
        let w2 = first_token(after_token(s));
        if w2.len() == 0 {
            Ok(CommandView::Swipe)
        } else if w2 == "list".spec_bytes() {
            Ok(CommandView::SwipeList)
        } else {
            match dec_value_of(w2) {
                Some(v) => if v <= usize::MAX {
                    Ok(CommandView::SwipeIndex(v as usize))
                } else {
                    Err(CommandError::BadSwipe)
                },
                None => Err(CommandError::BadSwipe),
            }
        }
    } else if w == "gen".spec_bytes() {
        Ok(CommandView::Gen)
    } else if w == "regen".spec_bytes() {
        Ok(CommandView::Swipe)
    } else if w == "undo".spec_bytes() {
        Ok(CommandView::Undo)
    } else if w == "redo".spec_bytes() {
        Ok(CommandView::Redo)
    } else {
        Err(CommandError::Unrecognized)
    }
}

impl Command {
    /// Reads a typed line.
    pub fn parse(s: &[u8]) -> (r: Result<Command, CommandError>)
        ensures
            match r {
                Ok(c) => command_spec_of(s@) == Ok::<CommandView, CommandError>(command_view(c)),
                Err(e) => command_spec_of(s@) == Err::<CommandView, CommandError>(e),
            },
    {
        let (w, rest) = next_token(s);
        if w.len() == 0 {
            Err(CommandError::Empty)
        } else if crate::text::bytes_eq(w, "help".as_bytes()) {
            Ok(Command::Help)
        } else if crate::text::bytes_eq(w, "exit".as_bytes()) {
            Ok(Command::Exit)
        } else if crate::text::bytes_eq(w, "load".as_bytes()) {
            let (w2, _) = next_token(rest);
            if w2.len() > 0 {
                Ok(Command::Load(vstd::slice::slice_to_vec(w2)))
            } else {
                Ok(Command::Reload)
            }
        } else if crate::text::bytes_eq(w, "reload".as_bytes()) {
            Ok(Command::Reload)
        } else if crate::text::bytes_eq(w, "char".as_bytes()) {
            let mut space: Vec<u8> = Vec::new();
            space.push(32u8);
            proof {
                assert(space@ =~= seq![32u8]);
            }
            match find_sub(s, space.as_slice()) {
                None => Err(CommandError::CharNeedsName),
                Some(sp) => {
                    let tail = slice_subrange(s, sp, s.len());
                    proof {
                        assert(tail@ =~= s@.skip(sp as int));
                    }
                    let name = trim_ascii_ws(tail);
                    if name.len() == 0 {
                        Err(CommandError::CharNeedsName)
                    } else {
                        Ok(Command::Char(vstd::slice::slice_to_vec(name)))
                    }
                },
            }
        } else if crate::text::bytes_eq(w, "swipe".as_bytes()) {
            let (w2, _) = next_token(rest);
            if w2.len() == 0 {
                Ok(Command::Swipe)
            } else if crate::text::bytes_eq(w2, "list".as_bytes()) {
                Ok(Command::SwipeList)
            } else {
                match parse_usize(w2) {
                    Some(i) => Ok(Command::SwipeIndex(i)),
                    None => Err(CommandError::BadSwipe),
                }
            }
        } else if crate::text::bytes_eq(w, "gen".as_bytes()) {
            Ok(Command::Gen)
        } else if crate::text::bytes_eq(w, "regen".as_bytes()) {
            Ok(Command::Swipe)
        } else if crate::text::bytes_eq(w, "undo".as_bytes()) {
            Ok(Command::Undo)
        } else if crate::text::bytes_eq(w, "redo".as_bytes()) {
            Ok(Command::Redo)
        } else {
            Err(CommandError::Unrecognized)
        }
    }
}

} // verus!
