//! The router: cost arithmetic, determinism, tie-breaking.

use kobold_dispatch::router::Servers;
use kobold_dispatch::router::generation_cost;
use kobold_dispatch::text::common_prefix_len;

#[test]
fn common_prefix_counts_shared_bytes() {
    assert_eq!(common_prefix_len(b"ABCDEF", b"ABCXYZ123"), 3);
    assert_eq!(common_prefix_len(b"", b"ABC"), 0);
    assert_eq!(common_prefix_len(b"ABC", b"ABC"), 3);
    assert_eq!(common_prefix_len(b"ABCD", b"ABC"), 3);
}

#[test]
fn cost_of_partial_overlap_in_thousandths() {
    // last "ABCDEF" (6 bytes), new "ABCXYZ123" (9 bytes): 3 shared, 6
    // parsed, 3 erased; with a weight of 0.3 the cost is 6.9.
    let cost = generation_cost(b"ABCDEF", b"ABCXYZ123", 300);
    assert_eq!(cost, 6900);
}

#[test]
fn cost_extremes() {
    // Identical prompts parse and erase nothing.
    assert_eq!(generation_cost(b"same", b"same", 300), 0);
    // Disjoint prompts parse everything and erase everything.
    assert_eq!(generation_cost(b"xx", b"yyy", 500), 3000 + 2 * 500);
    // An empty cache just parses the new prompt.
    assert_eq!(generation_cost(b"", b"abcd", 300), 4000);
}

#[test]
fn longer_shared_prefix_never_costs_more() {
    // Lengths fixed at 4 and 4; only the shared prefix differs.
    let two_shared = generation_cost(b"ABCD", b"ABXY", 300);
    let one_shared = generation_cost(b"ABCD", b"AXYZ", 300);
    let none_shared = generation_cost(b"ABCD", b"WXYZ", 300);
    assert!(two_shared <= one_shared);
    assert!(one_shared <= none_shared);
    assert_eq!(two_shared, 2000 + 2 * 300);
}

#[test]
fn router_is_deterministic_on_equal_state() {
    let a = Servers::new(3, 300);
    let b = Servers::new(3, 300);
    assert_eq!(a.best_server(b"prompt"), b.best_server(b"prompt"));
    assert_eq!(a.best_server(b"prompt"), a.best_server(b"prompt"));
}

#[test]
fn tie_breaks_toward_lowest_index() {
    // Two instances, both with an empty cached prompt: every prompt costs
    // the same on each, and index zero must win.
    let servers = Servers::new(2, 300);
    assert_eq!(servers.best_server(b"some prompt"), 0);
}

#[test]
fn selection_prefers_longest_shared_prefix() {
    let mut servers = Servers::new(2, 300);
    // Instance 1 remembers a prompt close to the new one.
    let first = servers.select_instance(b"story: once upon a time");
    assert_eq!(first, 0);
    let second = servers.select_instance(b"story: once upon a time there was");
    assert_eq!(second, 0);
    // A prompt with nothing in common goes to the idle instance.
    let third = servers.select_instance(b"completely different");
    assert_eq!(third, 1);
}

#[test]
fn selection_updates_cached_prompt_eagerly() {
    let mut servers = Servers::new(2, 300);
    let chosen = servers.select_instance(b"alpha");
    assert_eq!(chosen, 0);
    // The second identical dispatch finds the prompt already cached on
    // instance 0 and stays there: zero cost beats an empty instance.
    let again = servers.select_instance(b"alpha");
    assert_eq!(again, 0);
}
