//! Prompt files: parsing, preprocessing, and writing responses back.

use kobold_dispatch::config::Config;
use kobold_dispatch::error::ParseError;
use kobold_dispatch::preprocess::Segment;
use kobold_dispatch::preprocess::extract_json_string;
use kobold_dispatch::preprocess::preprocess_segments;
use kobold_dispatch::promptfile::insert_response;
use kobold_dispatch::promptfile::overwrite_prompt;
use kobold_dispatch::promptfile::parse_from_file;

const FILE: &[u8] = b"<|CONFIG|>
user_name: Alice
prompt:
  max_length: 80
  rep_pen: 1.1
server:
  port: 5005
  instances: 2
<|ENDCONFIG|>
<|CHAR|>
name: Bob
prefix: \"Bob: \"
suffix: \"\\n\"
stop_sequence: [\"{{user}}:\"]
definition: \"Bob is helpful.\\n\"
<|ENDCHAR|>
<|PROMPT|>
Alice: hello
";

#[test]
fn parse_reads_config_characters_and_prompt() {
    let prompt = parse_from_file(FILE).unwrap();
    assert_eq!(prompt.config.user_name, b"Alice".to_vec());
    assert_eq!(prompt.config.prompt.max_length, 80);
    assert_eq!(prompt.config.prompt.rep_pen_milli, 1100);
    // Entries the file does not set keep their defaults.
    assert_eq!(prompt.config.prompt.max_context_length, 1024);
    assert_eq!(prompt.config.prompt.top_p_milli, 920);
    assert_eq!(prompt.config.server.port, 5005);
    assert_eq!(prompt.config.server.instances, 2);
    assert_eq!(prompt.config.server.threads, 1);
    assert_eq!(prompt.characters.len(), 1);
    assert_eq!(prompt.characters[0].name, b"Bob".to_vec());
    assert_eq!(prompt.characters[0].prefix, b"Bob: ".to_vec());
    assert_eq!(prompt.characters[0].stop_sequence, vec![b"{{user}}:".to_vec()]);
    assert_eq!(prompt.prompt, b"Alice: hello".to_vec());
}

#[test]
fn parse_requires_a_config_block() {
    assert!(matches!(parse_from_file(b"no tags at all"), Err(ParseError::NoConfig)));
    assert!(matches!(parse_from_file(b"<|CONFIG|> unclosed"), Err(ParseError::NoConfig)));
}

#[test]
fn parse_rejects_unreadable_yaml() {
    let text = b"<|CONFIG|>\nuser_name: [unclosed\n<|ENDCONFIG|>";
    assert!(matches!(parse_from_file(text), Err(ParseError::BadYaml)));
}

#[test]
fn parse_rejects_unclosed_character_blocks() {
    let text = b"<|CONFIG|>
user_name: A
<|ENDCONFIG|>
<|CHAR|>
name: B
";
    assert!(matches!(parse_from_file(text), Err(ParseError::UnclosedCharTag)));
}

#[test]
fn parse_rejects_unclosed_context_blocks() {
    let text = b"<|CONFIG|>
user_name: A
<|ENDCONFIG|>
<|CONTEXT city|>
A big city.
";
    assert!(matches!(parse_from_file(text), Err(ParseError::UnclosedContextTag)));
}

#[test]
fn server_prompt_is_assembled_for_the_character() {
    let prompt = parse_from_file(FILE).unwrap();
    let sp = prompt.get_server_prompt(b"Bob").unwrap();
    assert_eq!(sp.prompt, b"Bob is helpful.\nAlice: helloBob: ".to_vec());
    assert_eq!(sp.max_length, 80);
    assert_eq!(sp.stop_sequence, vec![b"Alice:".to_vec()]);
    assert!(prompt.get_server_prompt(b"Nobody").is_err());
}

#[test]
fn stop_sequences_substitute_every_name_once() {
    let text = b"<|CONFIG|>
user_name: Alice
<|ENDCONFIG|>
<|CHAR|>
name: Bob
stop_sequence: [\"{{char}}:\", \"{{user}}:\"]
<|ENDCHAR|>
<|CHAR|>
name: Carol
<|ENDCHAR|>
";
    let prompt = parse_from_file(text).unwrap();
    let stops = prompt.stop_sequences(b"Bob").unwrap();
    // "{{char}}:" expands per name (Bob, Carol, Alice), then "{{user}}:"
    // always expands to Alice and collapses to one entry.
    assert_eq!(
        stops,
        vec![b"Bob:".to_vec(), b"Carol:".to_vec(), b"Alice:".to_vec()]
    );
}

#[test]
fn finalize_strips_one_stop_sequence_and_frames() {
    let prompt = parse_from_file(FILE).unwrap();
    let done = prompt.finalize_response(b"Bob", b"hi there Alice:").unwrap();
    assert_eq!(done, b"Bob: hi there \n".to_vec());
    let untouched = prompt.finalize_response(b"Bob", b"hi there").unwrap();
    assert_eq!(untouched, b"Bob: hi there\n".to_vec());
}

#[test]
fn preprocess_cuts_text_into_segments() {
    let text = b"head <|INCLUDE other.txt |> mid <|JSON data.json /a/b |> tail";
    let segments = preprocess_segments(text).unwrap();
    assert_eq!(segments.len(), 5);
    assert!(matches!(&segments[0], Segment::Text(t) if t == b"head "));
    assert!(matches!(&segments[1], Segment::Include(f) if f == b"other.txt"));
    assert!(matches!(&segments[2], Segment::Text(t) if t == b" mid "));
    assert!(
        matches!(&segments[3], Segment::Json(f, p) if f == b"data.json" && p == b"/a/b")
    );
    assert!(matches!(&segments[4], Segment::Text(t) if t == b" tail"));
}

#[test]
fn preprocess_faults() {
    // An opening without any end marker is literal text.
    let dangling = preprocess_segments(b"a <|INCLUDE x").unwrap();
    assert_eq!(dangling.len(), 1);
    assert!(matches!(&dangling[0], Segment::Text(t) if t == b"a <|INCLUDE x"));
    // An end marker only past the next opening means a missing end.
    assert!(matches!(
        preprocess_segments(b"<|INCLUDE a <|INCLUDE b |>"),
        Err(ParseError::MissingIncludeEnd)
    ));
    // A JSON splice needs a file and a pointer.
    assert!(matches!(
        preprocess_segments(b"<|JSON only_file |>"),
        Err(ParseError::TooFewJsonArgs)
    ));
}

#[test]
fn json_strings_are_spliced_by_pointer() {
    let doc = br#"{"a": {"b": "found"}}"#;
    assert_eq!(extract_json_string(doc, b"/a/b"), Ok(b"found".to_vec()));
    assert!(matches!(
        extract_json_string(doc, b"/a/missing"),
        Err(ParseError::JsonPointerMissing)
    ));
    assert!(matches!(extract_json_string(b"nonsense", b"/a"), Err(ParseError::BadJson)));
}

#[test]
fn responses_are_inserted_before_a_trailing_newline() {
    assert_eq!(insert_response(b"story\n", b" goes on"), b"story goes on".to_vec());
    assert_eq!(insert_response(b"story\r\n", b"!"), b"story!".to_vec());
    assert_eq!(insert_response(b"story", b"!"), b"story!".to_vec());
    // Texts shorter than two bytes are appended to whole.
    assert_eq!(insert_response(b"\n", b"x"), b"\nx".to_vec());
}

#[test]
fn prompts_are_overwritten_after_the_last_prompt_tag() {
    let text = b"<|CONFIG|>c<|ENDCONFIG|>\n<|PROMPT|>\nold text";
    let out = overwrite_prompt(text, b"new text").unwrap();
    assert_eq!(out, b"<|CONFIG|>c<|ENDCONFIG|>\n<|PROMPT|>\nnew text".to_vec());
    assert!(matches!(
        overwrite_prompt(b"no tag here", b"p"),
        Err(ParseError::NoPromptTag)
    ));
}

#[test]
fn config_defaults_when_entries_are_missing() {
    let config = Config::from_yaml(b"{}").unwrap();
    assert_eq!(config.user_name, b"".to_vec());
    assert_eq!(config.prompt.max_length, 50);
    assert_eq!(config.prompt.rep_pen_milli, 1100);
    assert_eq!(config.prompt.rep_pen_slope_milli, 700);
    assert_eq!(config.prompt.temperature_milli, 700);
    assert_eq!(config.prompt.tfs_milli, 1000);
    assert_eq!(config.prompt.top_p_milli, 920);
    assert_eq!(config.prompt.sampler_order, vec![6, 0, 1, 3, 4, 2, 5]);
    assert_eq!(config.server.context_size, 1024);
    assert_eq!(config.server.blas_batch_size, 512);
    assert_eq!(config.server.blasthreads, None);
    assert_eq!(config.server.port, 5001);
    assert_eq!(config.server.instances, 1);
}

#[test]
fn config_reads_decimal_fractions_in_thousandths() {
    let text = b"prompt:\n  top_p: 0.92\n  temperature: 0.7\n  tfs: 1.0\n  top_a: 0\n";
    let config = Config::from_yaml(text).unwrap();
    assert_eq!(config.prompt.top_p_milli, 920);
    assert_eq!(config.prompt.temperature_milli, 700);
    assert_eq!(config.prompt.tfs_milli, 1000);
    assert_eq!(config.prompt.top_a_milli, 0);
}
