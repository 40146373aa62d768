//! The branching search from one starting quadruple.
//!
//! Each call steps its quadruple once. A step that closes the branch is a
//! leaf, reported at depth 0; any other step forks into its two swaps, and
//! the leaves below each swap come back one level deeper, those of the first
//! swap before those of the second. A cap on the number of forks along any
//! one path keeps the search finite: a search that would go deeper fails as
//! a whole.
use vstd::prelude::*;
use crate::quad::{
    ints, step, swap_first, swap_second, within, step_fits, next_ducci, generate_swaps,
    lemma_step_bounded,
};
use crate::classify::{terminal, is_terminal};

verus! {

/// Default cap on the number of forks along one path of a search.
pub const MAX_DEPTH: u32 = 255;

/// A search needed more forks along one path than its cap allows.
#[derive(Debug, Clone, Copy, PartialEq, Eq, Structural)]
pub enum SearchError {
    DepthExceeded,
}

/// One leaf of a search in the abstract: the quadruple that closed the
/// branch, and the number of forks taken to reach it.
pub type Leaf = (Seq<int>, nat);

/// The leaves of `r`, each one fork deeper.
pub open spec fn deepen(r: Seq<Leaf>) -> Seq<Leaf> {
    r.map_values(|p: Leaf| (p.0, p.1 + 1))
}

/// The leaves reached from `s`, in order, where no path takes more than
/// `cap` forks; `None` where some path would take more.
pub open spec fn explore(s: Seq<int>, cap: nat) -> Option<Seq<Leaf>>
    decreases cap,
{
    let next = step(s);
    if terminal(next) {
        Some(seq![(next, 0nat)])
    } else if cap == 0 {
        None
    } else {
        match (
            explore(swap_first(next), (cap - 1) as nat),
            explore(swap_second(next), (cap - 1) as nat),
        ) {
            (Some(a), Some(b)) => Some(deepen(a) + deepen(b)),
            _ => None,
        }
    }
}

/// The abstract leaves that a list of (quadruple, depth) pairs stands for.
pub open spec fn leaves(v: Seq<([i8; 4], u32)>) -> Seq<Leaf> {
    v.map_values(|p: ([i8; 4], u32)| (ints(p.0), p.1 as nat))
}

/// Every leaf closes its branch and lies no deeper than the cap.
pub open spec fn sound_leaves(r: Seq<Leaf>, cap: nat) -> bool {
    forall|i: int| 0 <= i < r.len() ==> terminal((#[trigger] r[i]).0) && r[i].1 <= cap
}

/// Every leaf of a search closes its branch, and no leaf lies deeper than
/// the cap.
pub proof fn lemma_leaves_sound(s: Seq<int>, cap: nat)
    requires
        explore(s, cap) is Some,
    ensures
        sound_leaves(explore(s, cap)->Some_0, cap),
    decreases cap,
{
    let next = step(s);
    if !terminal(next) {
        let c = (cap - 1) as nat;
        lemma_leaves_sound(swap_first(next), c);
        lemma_leaves_sound(swap_second(next), c);
        let a = explore(swap_first(next), c)->Some_0;
        let b = explore(swap_second(next), c)->Some_0;
        let r = explore(s, cap)->Some_0;
        assert forall|i: int| 0 <= i < r.len() implies terminal((#[trigger] r[i]).0) && r[i].1
            <= cap by {
            if i < a.len() {
                assert(r[i] == deepen(a)[i]);
            } else {
                assert(r[i] == deepen(b)[i - a.len()]);
            }
        }
    }
}

/// Lists the leaves reached from `ducci`, with the number of forks taken to
/// reach each, where no path takes more than `max_depth` forks.
pub fn calculate_paths(ducci: &[i8; 4], max_depth: u32) -> (r: Result<
    Vec<([i8; 4], u32)>,
    SearchError,
>)
    requires
        step_fits(*ducci),
    ensures
        match r {
            Ok(v) => explore(ints(*ducci), max_depth as nat) == Some(leaves(v@)),
            Err(e) => explore(ints(*ducci), max_depth as nat) is None && e
                == SearchError::DepthExceeded,
        },
    decreases max_depth,
{
    let next_state = next_ducci(ducci);
    if is_terminal(&next_state) {
        let r = vec![(next_state, 0u32)];
        assert(leaves(r@) =~= seq![(step(ints(*ducci)), 0nat)]);
        return Ok(r);
    }
    if max_depth == 0 {
        return Err(SearchError::DepthExceeded);
    }
    let swaps = generate_swaps(&next_state);
    proof {
        lemma_step_bounded(ints(swaps[0]), i8::MAX as int);
        lemma_step_bounded(ints(swaps[1]), i8::MAX as int);
    }
    let one = match calculate_paths(&swaps[0], max_depth - 1) {
        Ok(v) => v,
        Err(e) => return Err(e),
    };
    let two = match calculate_paths(&swaps[1], max_depth - 1) {
        Ok(v) => v,
        Err(e) => return Err(e),
    };
    let ghost cap = (max_depth - 1) as nat;
    proof {
        lemma_leaves_sound(ints(swaps[0]), cap);
        lemma_leaves_sound(ints(swaps[1]), cap);
    }
    let mut terminals: Vec<([i8; 4], u32)> = Vec::new();
    let mut i: usize = 0;
    while i < one.len()
        invariant
            i <= one.len(),
            terminals.len() == i,
            sound_leaves(leaves(one@), cap),
            max_depth >= 1,
            cap == max_depth - 1,
            forall|j: int|
                0 <= j < i ==> (#[trigger] terminals[j]).0 == one[j].0 && terminals[j].1
                    == one[j].1 + 1,
        decreases one.len() - i,
    {
        assert(leaves(one@)[i as int].1 <= cap);
        terminals.push((one[i].0, one[i].1 + 1));
        i = i + 1;
    }
    let mut i: usize = 0;
    while i < two.len()
        invariant
            i <= two.len(),
            terminals.len() == one.len() + i,
            sound_leaves(leaves(two@), cap),
            max_depth >= 1,
            cap == max_depth - 1,
            forall|j: int|
                0 <= j < one.len() ==> (#[trigger] terminals[j]).0 == one[j].0 && terminals[j].1
                    == one[j].1 + 1,
            forall|j: int|
                0 <= j < i ==> (#[trigger] terminals[one.len() + j]).0 == two[j].0
                    && terminals[one.len() + j].1 == two[j].1 + 1,
        decreases two.len() - i,
    {
        assert(leaves(two@)[i as int].1 <= cap);
        terminals.push((two[i].0, two[i].1 + 1));
        i = i + 1;
    }
    assert(leaves(terminals@) =~= deepen(leaves(one@)) + deepen(leaves(two@))) by {
        assert forall|j: int| 0 <= j < terminals.len() implies #[trigger] leaves(terminals@)[j]
            == (deepen(leaves(one@)) + deepen(leaves(two@)))[j] by {
            if j >= one.len() {
                assert(terminals[one.len() + (j - one.len())] == terminals[j]);
            }
        }
    }
    Ok(terminals)
}

/// Where the step of `s` does not close the branch and a search from `s`
/// succeeds, the searches from both swaps succeed with one fork less, and
/// each leaf from `s` is the matching leaf of those searches, in order, one
/// fork deeper.
pub proof fn lemma_fork_depths(s: Seq<int>, cap: nat)
    requires
        !terminal(step(s)),
        explore(s, cap) is Some,
    ensures
        cap >= 1,
        explore(swap_first(step(s)), (cap - 1) as nat) is Some,
        explore(swap_second(step(s)), (cap - 1) as nat) is Some,
        ({
            let r = explore(s, cap)->Some_0;
            let a = explore(swap_first(step(s)), (cap - 1) as nat)->Some_0;
            let b = explore(swap_second(step(s)), (cap - 1) as nat)->Some_0;
            &&& r.len() == a.len() + b.len()
            &&& forall|i: int| 0 <= i < a.len() ==> #[trigger] r[i] == (a[i].0, a[i].1 + 1)
            &&& forall|i: int|
                0 <= i < b.len() ==> #[trigger] r[a.len() + i] == (b[i].0, b[i].1 + 1)
        }),
{
    let r = explore(s, cap)->Some_0;
    let b = explore(swap_second(step(s)), (cap - 1) as nat)->Some_0;
    let a = explore(swap_first(step(s)), (cap - 1) as nat)->Some_0;
    assert forall|i: int| 0 <= i < b.len() implies #[trigger] r[a.len() + i] == (
        b[i].0,
        b[i].1 + 1,
    ) by {
        assert(r[a.len() + i] == deepen(b)[i]);
    }
}

/// Raising the cap of a search that succeeded changes nothing of its result.
pub proof fn lemma_cap_monotone(s: Seq<int>, cap: nat, larger: nat)
    requires
        explore(s, cap) is Some,
        cap <= larger,
    ensures
        explore(s, larger) == explore(s, cap),
    decreases cap,
{
    let next = step(s);
    if !terminal(next) {
        lemma_cap_monotone(swap_first(next), (cap - 1) as nat, (larger - 1) as nat);
        lemma_cap_monotone(swap_second(next), (cap - 1) as nat, (larger - 1) as nat);
    }
}

/// Two runs of the search from one starting quadruple under one cap that
/// both succeed return the same list, in the same order.
pub proof fn lemma_search_deterministic(
    ducci: [i8; 4],
    max_depth: u32,
    first: Seq<([i8; 4], u32)>,
    second: Seq<([i8; 4], u32)>,
)
    requires
        explore(ints(ducci), max_depth as nat) == Some(leaves(first)),
        explore(ints(ducci), max_depth as nat) == Some(leaves(second)),
    ensures
        first == second,
{
    assert(first.len() == leaves(first).len());
    assert forall|i: int| 0 <= i < first.len() implies #[trigger] first[i] == second[i] by {
        assert(leaves(first)[i] == leaves(second)[i]);
        assert(ints(first[i].0)[0] == ints(second[i].0)[0]);
        assert(ints(first[i].0)[1] == ints(second[i].0)[1]);
        assert(ints(first[i].0)[2] == ints(second[i].0)[2]);
        assert(ints(first[i].0)[3] == ints(second[i].0)[3]);
        assert(first[i].0@ =~= second[i].0@);
    }
    assert(first =~= second);
}

} // verus!
