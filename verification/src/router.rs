//! Cost-based request routing.
//!
//! Each pool instance remembers the prompt of the request most recently
//! dispatched to it.  A new prompt is placed on the instance whose remembered
//! prompt it overlaps best, measured by how many bytes the backend would
//! have to parse anew and how many cached bytes it would erase.  Costs are
//! integers in thousandths: a recomputation weight of `w` thousandths counts
//! each erased byte as `w / 1000` of a parsed byte.

use vstd::prelude::*;

verus! {

use crate::text::common_prefix;
use crate::text::common_prefix_len;
use crate::text::lemma_common_prefix;

/// Recomputation cost, in thousandths, of serving a prompt of `new_len`
/// bytes on an instance whose cached prompt has `last_len` bytes and shares
/// a leading sequence of `common` bytes: every byte past the shared prefix
/// must be parsed, and every cached byte past it is erased at weight `w`.
pub open spec fn cost_formula(last_len: int, new_len: int, common: int, w: int) -> int {
    (new_len - common) * 1000 + (last_len - common) * w
}

/// Recomputation cost, in thousandths, of serving prompt `new` on an
/// instance that last served `last`, with erased bytes weighted `w`
/// thousandths each.
pub open spec fn cost_spec(last: Seq<u8>, new: Seq<u8>, w: int) -> int {
    cost_formula(last.len() as int, new.len() as int, common_prefix(last, new), w)
}

/// A longer shared prefix never increases the cost: with both lengths fixed
/// and a nonnegative weight, the cost falls (weakly) as `common` grows.
pub proof fn lemma_cost_monotonic(last_len: int, new_len: int, c1: int, c2: int, w: int)
    requires
        0 <= c1 <= c2,
        c2 <= last_len,
        c2 <= new_len,
        0 <= w,
    ensures
        cost_formula(last_len, new_len, c2, w) <= cost_formula(last_len, new_len, c1, w),
{
    assert((new_len - c2) * 1000 <= (new_len - c1) * 1000) by (nonlinear_arith)
        requires
            c1 <= c2,
    ;
    assert((last_len - c2) * w <= (last_len - c1) * w) by (nonlinear_arith)
        requires
            c1 <= c2 && 0 <= w,
    ;
}

/// Computes the routing cost of `new` against `last` in thousandths.
pub fn generation_cost(last: &[u8], new: &[u8], weight_milli: u64) -> (c: u128)
    requires
        weight_milli < 1000,
    ensures
        c == cost_spec(last@, new@, weight_milli as int),
{
    let common = common_prefix_len(last, new);
    proof {
        lemma_common_prefix(last@, new@);
    }
    let parsed = new.len() - common;
    let erased = last.len() - common;
    proof {
        assert(parsed as u128 * 1000 <= u64::MAX as u128 * 1000) by (nonlinear_arith)
            requires
                parsed as u128 <= u64::MAX as u128,
        ;
        assert(erased as u128 * (weight_milli as u128) < u64::MAX as u128 * 1000) by (
        nonlinear_arith)
            requires
                erased as u128 <= u64::MAX as u128 && (weight_milli as u128) < 1000,
        ;
    }
    parsed as u128 * 1000 + erased as u128 * weight_milli as u128
}

/// Index `i` is the instance the router must pick for `new`: it has minimal
/// cost, and no earlier instance matches that cost.
pub open spec fn is_selected(prompts: Seq<Seq<u8>>, new: Seq<u8>, w: int, i: int) -> bool {
    &&& 0 <= i < prompts.len()
    &&& forall|j: int| 0 <= j < prompts.len() ==> cost_spec(prompts[i], new, w) <= #[trigger] cost_spec(prompts[j], new, w)
    &&& forall|j: int| 0 <= j < i ==> cost_spec(prompts[i], new, w) < #[trigger] cost_spec(prompts[j], new, w)
}

/// The index the router picks: the lowest index of minimal cost.
pub open spec fn selected_index(prompts: Seq<Seq<u8>>, new: Seq<u8>, w: int) -> int {
    choose|i: int| is_selected(prompts, new, w, i)
}

/// Exactly one index is selected in a nonempty pool.
pub proof fn lemma_selected_exists(prompts: Seq<Seq<u8>>, new: Seq<u8>, w: int)
    requires
        prompts.len() > 0,
    ensures
        is_selected(prompts, new, w, selected_index(prompts, new, w)),
        forall|i: int, j: int|
            is_selected(prompts, new, w, i) && is_selected(prompts, new, w, j) ==> i == j,
    decreases prompts.len(),
{
    if prompts.len() == 1 {
        assert(is_selected(prompts, new, w, 0));
    } else {
        let head = prompts.subrange(0, prompts.len() - 1);
        lemma_selected_exists(head, new, w);
        let i = selected_index(head, new, w);
        assert(forall|j: int| 0 <= j < head.len() ==> head[j] == prompts[j]);
        if cost_spec(prompts[prompts.len() - 1], new, w) < cost_spec(prompts[i], new, w) {
            assert(is_selected(prompts, new, w, prompts.len() - 1));
        } else {
            assert(is_selected(prompts, new, w, i));
        }
    }
    assert forall|i: int, j: int|
        is_selected(prompts, new, w, i) && is_selected(prompts, new, w, j) implies i == j by {
        if is_selected(prompts, new, w, i) && is_selected(prompts, new, w, j) && i != j {
            if i < j {
                assert(cost_spec(prompts[j], new, w) < cost_spec(prompts[i], new, w));
            } else {
                assert(cost_spec(prompts[i], new, w) < cost_spec(prompts[j], new, w));
            }
        }
    }
}

/// The router is deterministic: equal cached-prompt state, equal prompt and
/// equal weight always give the same selected index.
pub proof fn lemma_router_deterministic(
    prompts1: Seq<Seq<u8>>,
    prompts2: Seq<Seq<u8>>,
    new1: Seq<u8>,
    new2: Seq<u8>,
    w: int,
)
    requires
        prompts1 == prompts2,
        new1 == new2,
    ensures
        selected_index(prompts1, new1, w) == selected_index(prompts2, new2, w),
{
}

/// With two instances that both remember the empty prompt, every prompt
/// costs the same on each, and the router returns index zero.
pub proof fn lemma_tie_break_empty(prompts: Seq<Seq<u8>>, new: Seq<u8>, w: int)
    requires
        prompts.len() == 2,
        prompts[0] == Seq::<u8>::empty(),
        prompts[1] == Seq::<u8>::empty(),
    ensures
        selected_index(prompts, new, w) == 0,
{
    assert(common_prefix(prompts[0], new) == 0);
    assert(common_prefix(prompts[1], new) == 0);
    assert(cost_spec(prompts[0], new, w) == cost_spec(prompts[1], new, w));
    assert(is_selected(prompts, new, w, 0));
    lemma_selected_exists(prompts, new, w);
}

/// The routing state of the instance pool: one cached prompt per instance,
/// and the erase weight in thousandths.
pub struct Servers {
    /// The prompt most recently dispatched to each instance.
    pub last_prompts: Vec<Vec<u8>>,
    /// Weight of an erased byte, in thousandths of a parsed byte.
    pub weight_milli: u64,
}

impl Servers {
    /// A well-formed pool has at least one instance and a weight strictly
    /// between zero and one.
    pub open spec fn wf(self) -> bool {
        &&& self.last_prompts@.len() > 0
        &&& 0 < self.weight_milli < 1000
    }

    /// The cached prompts, as byte sequences.
    pub open spec fn prompts(self) -> Seq<Seq<u8>> {
        Seq::new(self.last_prompts@.len(), |i: int| self.last_prompts@[i]@)
    }

    /// A fresh pool of `instances` instances, each with an empty cached
    /// prompt.
    pub fn new(instances: usize, weight_milli: u64) -> (r: Servers)
        requires
            instances > 0,
            0 < weight_milli < 1000,
        ensures
            r.wf(),
            r.prompts().len() == instances,
            forall|i: int| 0 <= i < instances ==> r.prompts()[i] == Seq::<u8>::empty(),
            r.weight_milli == weight_milli,
    {
        let mut last_prompts: Vec<Vec<u8>> = Vec::new();
        let mut i: usize = 0;
        while i < instances
            invariant
                0 <= i <= instances,
                last_prompts@.len() == i,
                forall|j: int| 0 <= j < i ==> last_prompts@[j]@ =~= Seq::<u8>::empty(),
            decreases instances - i,
        {
            last_prompts.push(Vec::new());
            i = i + 1;
        }
        Servers { last_prompts, weight_milli }
    }

    /// The instance with the lowest recomputation cost for `prompt`; ties
    /// fall to the lowest index.
    pub fn best_server(&self, prompt: &[u8]) -> (r: usize)
        requires
            self.wf(),
        ensures
            r == selected_index(self.prompts(), prompt@, self.weight_milli as int),
            is_selected(self.prompts(), prompt@, self.weight_milli as int, r as int),
    {
        let ghost prompts = self.prompts();
        let ghost w = self.weight_milli as int;
        let mut best: usize = 0;
        let mut best_cost: u128 = generation_cost(
            self.last_prompts[0].as_slice(),
            prompt,
            self.weight_milli,
        );
        let mut i: usize = 1;
        while i < self.last_prompts.len()
            invariant
                self.wf(),
                prompts == self.prompts(),
                w == self.weight_milli as int,
                0 <= best < i <= prompts.len(),
                best_cost == cost_spec(prompts[best as int], prompt@, w),
                forall|j: int| 0 <= j < i ==> best_cost <= #[trigger] cost_spec(prompts[j], prompt@, w),
                forall|j: int| 0 <= j < best ==> best_cost < #[trigger] cost_spec(prompts[j], prompt@, w),
            decreases prompts.len() - i,
        {
            let c = generation_cost(self.last_prompts[i].as_slice(), prompt, self.weight_milli);
            if c < best_cost {
                best = i;
                best_cost = c;
            }
            i = i + 1;
        }
        proof {
            assert(is_selected(prompts, prompt@, w, best as int));
            lemma_selected_exists(prompts, prompt@, w);
        }
        best
    }

    /// Routes `prompt`: picks the best instance and remembers `prompt` as
    /// that instance's cached prompt there and then, so that a second
    /// dispatch issued before this one completes cannot land on the same
    /// instance for being estimated against stale state.
    pub fn select_instance(&mut self, prompt: &[u8]) -> (r: usize)
        requires
            old(self).wf(),
        ensures
            final(self).wf(),
            r == selected_index(old(self).prompts(), prompt@, old(self).weight_milli as int),
            is_selected(old(self).prompts(), prompt@, old(self).weight_milli as int, r as int),
            final(self).prompts() == old(self).prompts().update(r as int, prompt@),
            final(self).weight_milli == old(self).weight_milli,
    {
        let i = self.best_server(prompt);
        let mut copy: Vec<u8> = Vec::new();
        crate::text::push_bytes(&mut copy, prompt);
        proof {
            assert(copy@ =~= prompt@);
        }
        self.last_prompts[i] = copy;
        proof {
            assert(final(self).prompts() =~= old(self).prompts().update(i as int, prompt@));
        }
        i
    }
}

} // verus!
