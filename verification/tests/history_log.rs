//! The undo/redo history and the prefix-addressed response log.

use kobold_dispatch::error::HistoryError;
use kobold_dispatch::history::History;

#[test]
fn undo_and_redo_step_through_prompts() {
    let mut history = History::new();
    history.set_prompt(b"one".to_vec());
    history.set_prompt(b"two".to_vec());
    assert_eq!(history.prompt(), &b"two".to_vec());
    history.undo();
    assert_eq!(history.prompt(), &b"one".to_vec());
    history.redo();
    assert_eq!(history.prompt(), &b"two".to_vec());
    // Steps past the ends change nothing.
    history.redo();
    assert_eq!(history.prompt(), &b"two".to_vec());
    history.undo();
    history.undo();
    assert_eq!(history.prompt(), &b"".to_vec());
    history.undo();
    assert_eq!(history.prompt(), &b"".to_vec());
}

#[test]
fn setting_a_new_prompt_drops_the_redo_stack() {
    let mut history = History::new();
    history.set_prompt(b"one".to_vec());
    history.undo();
    history.set_prompt(b"other".to_vec());
    history.redo();
    // Nothing to redo: the old branch is gone.
    assert_eq!(history.prompt(), &b"other".to_vec());
}

#[test]
fn setting_the_same_prompt_changes_nothing() {
    let mut history = History::new();
    history.set_prompt(b"one".to_vec());
    history.set_prompt(b"one".to_vec());
    history.undo();
    assert_eq!(history.prompt(), &b"".to_vec());
    history.undo();
    assert_eq!(history.prompt(), &b"".to_vec());
}

#[test]
fn responses_are_found_under_the_longest_recorded_prefix() {
    let mut history = History::new();
    history.set_prompt(b"story: ".to_vec());
    history.add_response(b"it begins");
    // The prompt grows by the appended response; its responses are still
    // those recorded for the prefix it grew from.
    history.set_prompt(b"story: it begins".to_vec());
    assert_eq!(history.responses(), vec![b"it begins".to_vec()]);
    history.add_response(b"and goes on");
    assert_eq!(history.responses(), vec![b"and goes on".to_vec()]);
}

#[test]
fn responses_without_a_recorded_prefix_are_empty() {
    let mut history = History::new();
    history.set_prompt(b"alpha".to_vec());
    history.add_response(b"a");
    history.set_prompt(b"beta".to_vec());
    assert_eq!(history.responses(), Vec::<Vec<u8>>::new());
}

#[test]
fn shared_bytes_are_not_a_recorded_prefix() {
    // "ab" and "ac" share a byte, but "ab" is not a prefix of "ac": the
    // lookup must not hand back the responses of "ab".
    let mut history = History::new();
    history.set_prompt(b"ab".to_vec());
    history.add_response(b"r");
    history.set_prompt(b"ac".to_vec());
    assert_eq!(history.responses(), Vec::<Vec<u8>>::new());
}

#[test]
fn with_response_replays_a_recorded_response() {
    let mut history = History::new();
    history.set_prompt(b"base".to_vec());
    history.add_response(b" one");
    history.add_response(b" two");
    history.set_prompt(b"base one more".to_vec());
    assert_eq!(history.with_response(1), Ok(()));
    assert_eq!(history.prompt(), &b"base two".to_vec());
    assert_eq!(history.with_response(5), Err(HistoryError::NoSuchResponse));
    let mut empty = History::new();
    empty.set_prompt(b"nothing".to_vec());
    assert_eq!(empty.with_response(0), Err(HistoryError::NoResponses));
}

#[test]
fn clear_forgets_everything() {
    let mut history = History::new();
    history.set_prompt(b"one".to_vec());
    history.add_response(b"r");
    history.clear();
    assert_eq!(history.prompt(), &b"".to_vec());
    assert_eq!(history.responses(), Vec::<Vec<u8>>::new());
    history.undo();
    assert_eq!(history.prompt(), &b"".to_vec());
}
