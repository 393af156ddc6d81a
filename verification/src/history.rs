//! The prompt's undo/redo history and the responses recorded for it.
//!
//! The history keeps two stacks of prompt texts for undo and redo, and a
//! radix trie mapping each prompt text to the responses generated for it.
//! The trie lets a prompt that has grown by an appended response still find
//! the responses of the prompt it grew from: lookup is by the longest
//! recorded prefix.  The trie itself is radix_trie's; what it holds is
//! named by [`trie_map`], and each call the history makes is specified over
//! that name.

use vstd::prelude::*;

verus! {

use crate::error::HistoryError;
use crate::text::is_prefix_of;
use crate::text::views_of;

#[verifier::external_type_specification]
#[verifier::external_body]
#[verifier::reject_recursive_types(K)]
#[verifier::reject_recursive_types(V)]
pub struct ExTrie<K, V>(radix_trie::Trie<K, V>);

/// What the response trie holds: the responses recorded for each prompt
/// text, in the order they were added.
pub uninterp spec fn trie_map(t: radix_trie::Trie<Vec<u8>, Vec<Vec<u8>>>) -> Map<
    Seq<u8>,
    Seq<Seq<u8>>,
>;

/// `k` is the longest recorded prefix of `key` in `m`.
pub open spec fn is_ancestor_key(m: Map<Seq<u8>, Seq<Seq<u8>>>, key: Seq<u8>, k: Seq<u8>) -> bool {
    &&& m.dom().contains(k)
    &&& is_prefix_of(k, key)
    &&& forall|k2: Seq<u8>|
        m.dom().contains(k2) && is_prefix_of(k2, key) ==> k2.len() <= k.len()
}

/// Two longest recorded prefixes of one key are the same.
pub proof fn lemma_ancestor_key_unique(
    m: Map<Seq<u8>, Seq<Seq<u8>>>,
    key: Seq<u8>,
    k1: Seq<u8>,
    k2: Seq<u8>,
)
    requires
        is_ancestor_key(m, key, k1),
        is_ancestor_key(m, key, k2),
    ensures
        k1 == k2,
{
    assert(k1.len() <= k2.len() && k2.len() <= k1.len());
    assert(k1 =~= key.subrange(0, k1.len() as int));
    assert(k2 =~= key.subrange(0, k2.len() as int));
}

/// Relies on `radix_trie::Trie::new`: an empty trie holds nothing.
#[verifier::external_body]
fn trie_new() -> (out: radix_trie::Trie<Vec<u8>, Vec<Vec<u8>>>)
    ensures
        trie_map(out) =~= Map::empty(),
{
    radix_trie::Trie::new()
}

/// Relies on `radix_trie::Trie::map_with_default`: appends `item` to the
/// list at `key`, starting a fresh list when the key is new.
#[verifier::external_body]
fn trie_push_value(t: &mut radix_trie::Trie<Vec<u8>, Vec<Vec<u8>>>, key: &Vec<u8>, item: &Vec<u8>)
    ensures
        trie_map(*final(t)) == trie_map(*old(t)).insert(
            key@,
            if trie_map(*old(t)).dom().contains(key@) {
                trie_map(*old(t))[key@].push(item@)
            } else {
                seq![item@]
            },
        ),
{
    t.map_with_default(key.clone(), |v| v.push(item.clone()), vec![item.clone()]);
}

/// Relies on `radix_trie::Trie::get_ancestor` and `TrieCommon::{key,
/// value}`: fetches the entry of the longest recorded prefix of `key`, as
/// the trie's own documentation promises it, or nothing when no recorded
/// key is a prefix of `key`.
#[verifier::external_body]
fn trie_ancestor(t: &radix_trie::Trie<Vec<u8>, Vec<Vec<u8>>>, key: &Vec<u8>) -> (r: Option<
    (Vec<u8>, Vec<Vec<u8>>),
>)
    ensures
        match r {
            Some(p) => is_ancestor_key(trie_map(*t), key@, p.0@) && views_of(p.1@) == trie_map(
                *t,
            )[p.0@],
            None => forall|k2: Seq<u8>|
                trie_map(*t).dom().contains(k2) ==> !is_prefix_of(k2, key@),
        },
{
    let node = t.get_ancestor(key)?;
    match (radix_trie::TrieCommon::key(&node), radix_trie::TrieCommon::value(&node)) {
        (Some(k), Some(v)) => Some((k.clone(), v.clone())),
        _ => None,
    }
}

/// The prompt's history: what undo and redo step through, and the responses
/// recorded for each prompt text.
pub struct History {
    pub undos: Vec<Vec<u8>>,
    pub redos: Vec<Vec<u8>>,
    pub prompt: Vec<u8>,
    pub responses: radix_trie::Trie<Vec<u8>, Vec<Vec<u8>>>,
}

impl History {
    /// The recorded responses, by prompt text.
    pub open spec fn responses_map(self) -> Map<Seq<u8>, Seq<Seq<u8>>> {
        trie_map(self.responses)
    }

    /// An empty history.
    pub fn new() -> (r: History)
        ensures
            r.undos@.len() == 0,
            r.redos@.len() == 0,
            r.prompt@ == Seq::<u8>::empty(),
            r.responses_map() == Map::<Seq<u8>, Seq<Seq<u8>>>::empty(),
    {
        History { undos: Vec::new(), redos: Vec::new(), prompt: Vec::new(), responses: trie_new() }
    }

    /// The current prompt text.
    pub fn prompt(&self) -> (r: &Vec<u8>)
        ensures
            r@ == self.prompt@,
    {
        &self.prompt
    }

    /// Forgets everything: the stacks, the prompt and the responses.
    pub fn clear(&mut self)
        ensures
            final(self).undos@.len() == 0,
            final(self).redos@.len() == 0,
            final(self).prompt@ == Seq::<u8>::empty(),
            final(self).responses_map() == Map::<Seq<u8>, Seq<Seq<u8>>>::empty(),
    {
        self.undos.clear();
        self.redos.clear();
        self.prompt.clear();
        self.responses = trie_new();
    }

    /// Steps the prompt back: the last undo entry becomes the prompt, and
    /// the prompt moves onto the redo stack.  With nothing to undo, nothing
    /// changes.
    pub fn undo(&mut self)
        ensures
            old(self).undos@.len() == 0 ==> *final(self) == *old(self),
            old(self).undos@.len() > 0 ==> {
                &&& final(self).prompt@ == old(self).undos@.last()@
                &&& final(self).undos@ == old(self).undos@.drop_last()
                &&& views_of(final(self).redos@) == views_of(old(self).redos@).push(
                    old(self).prompt@,
                )
                &&& final(self).responses_map() == old(self).responses_map()
            },
    {
        if self.undos.len() == 0 {
            return;
        }
        let ghost redos0 = self.redos@;
        match self.undos.pop() {
            Some(undo) => {
                let mut previous = undo;
                core::mem::swap(&mut self.prompt, &mut previous);
                self.redos.push(previous);
                proof {
                    assert(views_of(self.redos@) =~= views_of(redos0).push(old(self).prompt@));
                }
            },
            None => {
                proof {
                    assert(false);
                }
            },
        }
    }

    /// Steps the prompt forward again: the last redo entry becomes the
    /// prompt, and the prompt moves back onto the undo stack.  With nothing
    /// to redo, nothing changes.
    pub fn redo(&mut self)
        ensures
            old(self).redos@.len() == 0 ==> *final(self) == *old(self),
            old(self).redos@.len() > 0 ==> {
                &&& final(self).prompt@ == old(self).redos@.last()@
                &&& final(self).redos@ == old(self).redos@.drop_last()
                &&& views_of(final(self).undos@) == views_of(old(self).undos@).push(
                    old(self).prompt@,
                )
                &&& final(self).responses_map() == old(self).responses_map()
            },
    {
        if self.redos.len() == 0 {
            return;
        }
        let ghost undos0 = self.undos@;
        match self.redos.pop() {
            Some(redo) => {
                let mut previous = redo;
                core::mem::swap(&mut self.prompt, &mut previous);
                self.undos.push(previous);
                proof {
                    assert(views_of(self.undos@) =~= views_of(undos0).push(old(self).prompt@));
                }
            },
            None => {
                proof {
                    assert(false);
                }
            },
        }
    }

    /// Makes `prompt` the current prompt: the old prompt goes onto the undo
    /// stack and the redo stack is dropped.  Setting the same text again
    /// changes nothing.
    pub fn set_prompt(&mut self, prompt: Vec<u8>)
        ensures
            old(self).prompt@ == prompt@ ==> *final(self) == *old(self),
            old(self).prompt@ != prompt@ ==> {
                &&& final(self).prompt@ == prompt@
                &&& views_of(final(self).undos@) == views_of(old(self).undos@).push(
                    old(self).prompt@,
                )
                &&& final(self).redos@.len() == 0
                &&& final(self).responses_map() == old(self).responses_map()
            },
    {
        let ghost undos0 = self.undos@;
        if !crate::text::bytes_eq(prompt.as_slice(), self.prompt.as_slice()) {
            self.redos.clear();
            let mut previous = prompt;
            core::mem::swap(&mut self.prompt, &mut previous);
            self.undos.push(previous);
            proof {
                assert(views_of(self.undos@) =~= views_of(undos0).push(old(self).prompt@));
            }
        }
    }

    /// Records `response` for the current prompt.
    pub fn add_response(&mut self, response: &[u8])
        ensures
            final(self).prompt@ == old(self).prompt@,
            final(self).undos@ == old(self).undos@,
            final(self).redos@ == old(self).redos@,
            final(self).responses_map() == old(self).responses_map().insert(
                old(self).prompt@,
                if old(self).responses_map().dom().contains(old(self).prompt@) {
                    old(self).responses_map()[old(self).prompt@].push(response@)
                } else {
                    seq![response@]
                },
            ),
    {
        let item = vstd::slice::slice_to_vec(response);
        let key = crate::text::copy_bytes(&self.prompt);
        trie_push_value(&mut self.responses, &key, &item);
    }

    /// The responses recorded for the current prompt: those of its longest
    /// recorded prefix, or none when no recorded prompt is a prefix of it.
    pub fn responses(&self) -> (r: Vec<Vec<u8>>)
        ensures
            (exists|k: Seq<u8>|
                is_ancestor_key(self.responses_map(), self.prompt@, k) && views_of(r@)
                    == self.responses_map()[k]) || ((forall|k2: Seq<u8>|
                self.responses_map().dom().contains(k2) ==> !is_prefix_of(k2, self.prompt@))
                && r@.len() == 0),
    {
        match trie_ancestor(&self.responses, &self.prompt) {
            Some(p) => p.1,
            None => Vec::new(),
        }
    }

    /// Replaces the prompt by a recorded prompt prefix plus its `index`-th
    /// response: the longest recorded prefix of the current prompt names
    /// the responses; stacks and recorded responses stay as they are.
    pub fn with_response(&mut self, index: usize) -> (r: Result<(), HistoryError>)
        ensures
            final(self).undos@ == old(self).undos@,
            final(self).redos@ == old(self).redos@,
            final(self).responses_map() == old(self).responses_map(),
            match r {
                Ok(()) => exists|k: Seq<u8>|
                    is_ancestor_key(old(self).responses_map(), old(self).prompt@, k) && index
                        < old(self).responses_map()[k].len() && final(self).prompt@ == k + old(
                        self,
                    ).responses_map()[k][index as int],
                Err(HistoryError::NoResponses) => (forall|k2: Seq<u8>|
                    old(self).responses_map().dom().contains(k2) ==> !is_prefix_of(
                        k2,
                        old(self).prompt@,
                    )) && *final(self) == *old(self),
                Err(HistoryError::NoSuchResponse) => (exists|k: Seq<u8>|
                    is_ancestor_key(old(self).responses_map(), old(self).prompt@, k) && index
                        >= old(self).responses_map()[k].len()) && *final(self) == *old(self),
            },
    {
        let (key, values) = match trie_ancestor(&self.responses, &self.prompt) {
            Some(p) => p,
            None => {
                return Err(HistoryError::NoResponses);
            },
        };
        if index >= values.len() {
            proof {
                assert(self.responses_map()[key@].len() == views_of(values@).len());
            }
            return Err(HistoryError::NoSuchResponse);
        }
        let mut prompt: Vec<u8> = key;
        crate::text::push_bytes(&mut prompt, values[index].as_slice());
        proof {
            assert(views_of(values@)[index as int] == values@[index as int]@);
        }
        self.prompt = prompt;
        Ok(())
    }
}

} // verus!
