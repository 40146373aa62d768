//! Quadruples, their Ducci step, the two branch swaps and the rotations.
use vstd::prelude::*;

verus! {

/// A quadruple read as four mathematical integers.
pub open spec fn ints(q: [i8; 4]) -> Seq<int> {
    seq![q[0] as int, q[1] as int, q[2] as int, q[3] as int]
}

/// Absolute value of an integer.
pub open spec fn abs(x: int) -> int {
    if x < 0 {
        -x
    } else {
        x
    }
}

/// The Ducci step: cyclic absolute differences of adjacent entries.
pub open spec fn step(s: Seq<int>) -> Seq<int> {
    seq![abs(s[0] - s[1]), abs(s[1] - s[2]), abs(s[2] - s[3]), abs(s[3] - s[0])]
}

/// Every entry of `s` lies in `lo..=hi`.
pub open spec fn within(s: Seq<int>, lo: int, hi: int) -> bool {
    forall|i: int| 0 <= i < s.len() ==> lo <= #[trigger] s[i] <= hi
}

/// The step of `q` can be held in `i8`: no adjacent difference exceeds 127
/// in magnitude. True of every quadruple with non-negative entries.
pub open spec fn step_fits(q: [i8; 4]) -> bool {
    within(step(ints(q)), 0, i8::MAX as int)
}

/// Computes the next quadruple of the Ducci sequence.
pub fn next_ducci(ducci: &[i8; 4]) -> (r: [i8; 4])
    requires
        step_fits(*ducci),
    ensures
        ints(r) == step(ints(*ducci)),
{
    let a = ducci[0] as i16;
    let b = ducci[1] as i16;
    let c = ducci[2] as i16;
    let d = ducci[3] as i16;
    proof {
        assert(0 <= step(ints(*ducci))[0] <= 127);
        assert(0 <= step(ints(*ducci))[1] <= 127);
        assert(0 <= step(ints(*ducci))[2] <= 127);
        assert(0 <= step(ints(*ducci))[3] <= 127);
    }
    let r = [
        abs_diff(a, b) as i8,
        abs_diff(b, c) as i8,
        abs_diff(c, d) as i8,
        abs_diff(d, a) as i8,
    ];
    assert(ints(r) =~= step(ints(*ducci)));
    r
}

fn abs_diff(x: i16, y: i16) -> (r: i16)
    requires
        -256 <= x <= 255,
        -256 <= y <= 255,
    ensures
        r == abs(x - y),
{
    if x < y {
        y - x
    } else {
        x - y
    }
}

/// First branch: positions 0 and 1 exchanged.
pub open spec fn swap_first(s: Seq<int>) -> Seq<int> {
    seq![s[1], s[0], s[2], s[3]]
}

/// Second branch: positions 1 and 2 exchanged.
pub open spec fn swap_second(s: Seq<int>) -> Seq<int> {
    seq![s[0], s[2], s[1], s[3]]
}

/// The rotation of `s` by `k` places, for `k` in `0..4`: position `i` moves
/// to `(i + k) mod 4`.
pub open spec fn rotate(s: Seq<int>, k: int) -> Seq<int> {
    Seq::new(4, |j: int| s[if j >= k { j - k } else { j - k + 4 }])
}

/// Returns the two branches of a quadruple: entries 0 and 1 exchanged, then
/// entries 1 and 2 exchanged.
pub fn generate_swaps(ducci: &[i8; 4]) -> (r: [[i8; 4]; 2])
    ensures
        ints(r[0]) == swap_first(ints(*ducci)),
        ints(r[1]) == swap_second(ints(*ducci)),
{
    let first = [ducci[1], ducci[0], ducci[2], ducci[3]];
    let second = [ducci[0], ducci[2], ducci[1], ducci[3]];
    assert(ints(first) =~= swap_first(ints(*ducci)));
    assert(ints(second) =~= swap_second(ints(*ducci)));
    [first, second]
}

/// Returns the four rotations of a quadruple, entry `k` rotated by `k` places.
pub fn generate_rotations(ducci: &[i8; 4]) -> (r: [[i8; 4]; 4])
    ensures
        forall|k: int| 0 <= k < 4 ==> ints(#[trigger] r[k]) == rotate(ints(*ducci), k),
{
    let ninety = [ducci[3], ducci[0], ducci[1], ducci[2]];
    let one_eighty = [ducci[2], ducci[3], ducci[0], ducci[1]];
    let two_seventy = [ducci[1], ducci[2], ducci[3], ducci[0]];
    let r = [*ducci, ninety, one_eighty, two_seventy];
    assert(ints(r[0]) =~= rotate(ints(*ducci), 0));
    assert(ints(r[1]) =~= rotate(ints(*ducci), 1));
    assert(ints(r[2]) =~= rotate(ints(*ducci), 2));
    assert(ints(r[3]) =~= rotate(ints(*ducci), 3));
    r
}

/// Every entry of a step is non-negative and is the absolute difference of
/// two neighbours; where the entries of `s` lie in `0..=m`, so do those of
/// its step.
pub proof fn lemma_step_bounded(s: Seq<int>, m: int)
    requires
        s.len() == 4,
    ensures
        step(s).len() == 4,
        forall|i: int|
            0 <= i < 4 ==> #[trigger] step(s)[i] == abs(s[i] - s[if i == 3 { 0 } else { i + 1 }])
                && step(s)[i] >= 0,
        within(s, 0, m) ==> within(step(s), 0, m),
{
}

/// Each branch holds the same four values as the quadruple it came from.
pub proof fn lemma_swaps_permute(s: Seq<int>)
    requires
        s.len() == 4,
    ensures
        swap_first(s).to_multiset() == s.to_multiset(),
        swap_second(s).to_multiset() == s.to_multiset(),
{
    broadcast use vstd::seq_lib::group_to_multiset_ensures;

    let e = Seq::<int>::empty();
    assert(s =~= e.push(s[0]).push(s[1]).push(s[2]).push(s[3]));
    assert(swap_first(s) =~= e.push(s[1]).push(s[0]).push(s[2]).push(s[3]));
    assert(swap_second(s) =~= e.push(s[0]).push(s[2]).push(s[1]).push(s[3]));
    let m = e.to_multiset();
    assert(s.to_multiset() == m.insert(s[0]).insert(s[1]).insert(s[2]).insert(s[3]));
    assert(swap_first(s).to_multiset() == m.insert(s[1]).insert(s[0]).insert(s[2]).insert(
        s[3],
    ));
    assert(swap_second(s).to_multiset() == m.insert(s[0]).insert(s[2]).insert(s[1]).insert(
        s[3],
    ));
    assert(swap_first(s).to_multiset() =~= s.to_multiset());
    assert(swap_second(s).to_multiset() =~= s.to_multiset());
}

} // verus!
