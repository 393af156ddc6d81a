//! Reading typed lines into commands.

use kobold_dispatch::command::Command;
use kobold_dispatch::error::CommandError;

#[test]
fn plain_commands() {
    assert!(matches!(Command::parse(b"help"), Ok(Command::Help)));
    assert!(matches!(Command::parse(b"exit"), Ok(Command::Exit)));
    assert!(matches!(Command::parse(b"gen"), Ok(Command::Gen)));
    assert!(matches!(Command::parse(b"undo"), Ok(Command::Undo)));
    assert!(matches!(Command::parse(b"redo"), Ok(Command::Redo)));
    assert!(matches!(Command::parse(b"reload"), Ok(Command::Reload)));
    assert!(matches!(Command::parse(b"regen"), Ok(Command::Swipe)));
}

#[test]
fn load_takes_an_optional_file() {
    assert!(matches!(Command::parse(b"load story.txt"), Ok(Command::Load(f)) if f == b"story.txt"));
    assert!(matches!(Command::parse(b"load"), Ok(Command::Reload)));
}

#[test]
fn char_takes_the_rest_of_the_line() {
    assert!(matches!(Command::parse(b"char Bob"), Ok(Command::Char(n)) if n == b"Bob"));
    assert!(
        matches!(Command::parse(b"char Old Bob "), Ok(Command::Char(n)) if n == b"Old Bob")
    );
    assert!(matches!(Command::parse(b"char"), Err(CommandError::CharNeedsName)));
    assert!(matches!(Command::parse(b"char   "), Err(CommandError::CharNeedsName)));
}

#[test]
fn swipe_variants() {
    assert!(matches!(Command::parse(b"swipe"), Ok(Command::Swipe)));
    assert!(matches!(Command::parse(b"swipe list"), Ok(Command::SwipeList)));
    assert!(matches!(Command::parse(b"swipe 3"), Ok(Command::SwipeIndex(3))));
    assert!(matches!(Command::parse(b"swipe x"), Err(CommandError::BadSwipe)));
}

#[test]
fn bad_lines() {
    assert!(matches!(Command::parse(b""), Err(CommandError::Empty)));
    assert!(matches!(Command::parse(b"   "), Err(CommandError::Empty)));
    assert!(matches!(Command::parse(b"dance"), Err(CommandError::Unrecognized)));
}
