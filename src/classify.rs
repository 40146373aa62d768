//! Recognition of the end shapes that close a branch of the search.
use vstd::prelude::*;
use crate::quad::{ints, rotate, generate_rotations};

verus! {

/// The shape (0, 0, 0, 0).
pub open spec fn zero_shape(s: Seq<int>) -> bool {
    s[0] == 0 && s[1] == 0 && s[2] == 0 && s[3] == 0
}

/// The shape (0, a, 0, a).
pub open spec fn checker_shape(s: Seq<int>) -> bool {
    s[0] == 0 && s[2] == 0 && s[1] == s[3]
}

/// The shape (0, a, 2a, a).
pub open spec fn ladder_shape(s: Seq<int>) -> bool {
    s[0] == 0 && s[2] == 2 * s[1] && s[3] == s[1]
}

/// The rotation of `s` by `k` places has the checker or the ladder shape.
pub open spec fn shape_at(s: Seq<int>, k: int) -> bool {
    checker_shape(rotate(s, k)) || ladder_shape(rotate(s, k))
}

/// A quadruple closes its branch: it is all zero, or one of its four
/// rotations has the checker or the ladder shape.
pub open spec fn terminal(s: Seq<int>) -> bool {
    zero_shape(s) || exists|k: int| 0 <= k < 4 && #[trigger] shape_at(s, k)
}

/// Whether every entry is zero.
pub fn is_zero_convergence(ducci: &[i8; 4]) -> (r: bool)
    ensures
        r == zero_shape(ints(*ducci)),
{
    ducci[0] == 0 && ducci[1] == 0 && ducci[2] == 0 && ducci[3] == 0
}

/// Whether the quadruple reads (0, a, 0, a).
pub fn is_checker_convergence(ducci: &[i8; 4]) -> (r: bool)
    ensures
        r == checker_shape(ints(*ducci)),
{
    ducci[0] == 0 && ducci[2] == 0 && ducci[1] == ducci[3]
}

/// Whether the quadruple reads (0, a, 2a, a).
pub fn is_ladder_convergence(ducci: &[i8; 4]) -> (r: bool)
    ensures
        r == ladder_shape(ints(*ducci)),
{
    ducci[0] == 0 && ducci[2] as i16 == 2 * (ducci[1] as i16) && ducci[3] == ducci[1]
}

/// Whether the quadruple is one of the end shapes, in any rotation.
pub fn is_terminal(ducci: &[i8; 4]) -> (r: bool)
    ensures
        r == terminal(ints(*ducci)),
{
    if is_zero_convergence(ducci) {
        return true;
    }
    let rotations = generate_rotations(ducci);
    let mut k: usize = 0;
    while k < 4
        invariant
            0 <= k <= 4,
            forall|j: int| 0 <= j < 4 ==> ints(#[trigger] rotations[j]) == rotate(ints(*ducci), j),
            forall|j: int| 0 <= j < k ==> !#[trigger] shape_at(ints(*ducci), j),
        decreases 4 - k,
    {
        let rotation = rotations[k];
        assert(ints(rotations[k as int]) == rotate(ints(*ducci), k as int));
        if is_checker_convergence(&rotation) {
            assert(shape_at(ints(*ducci), k as int));
            return true;
        }
        if is_ladder_convergence(&rotation) {
            assert(shape_at(ints(*ducci), k as int));
            return true;
        }
        k = k + 1;
    }
    false
}

/// Rotating twice is rotating once by the sum of the two, taken mod 4.
pub proof fn lemma_rotate_twice(s: Seq<int>, k: int, j: int)
    requires
        s.len() == 4,
        0 <= k < 4,
        0 <= j < 4,
    ensures
        rotate(rotate(s, k), j) == rotate(s, if k + j < 4 { k + j } else { k + j - 4 }),
{
    assert(rotate(rotate(s, k), j) =~= rotate(s, if k + j < 4 { k + j } else { k + j - 4 }));
}

/// The all-zero quadruple closes its branch, and whether a quadruple closes
/// its branch does not change under rotation.
pub proof fn lemma_terminal_rotation_invariant(s: Seq<int>, k: int)
    requires
        s.len() == 4,
        0 <= k < 4,
    ensures
        terminal(seq![0int, 0, 0, 0]),
        terminal(rotate(s, k)) == terminal(s),
{
    let t = rotate(s, k);
    assert(zero_shape(t) == zero_shape(s));
    if exists|j: int| 0 <= j < 4 && #[trigger] shape_at(s, j) {
        let j = choose|j: int| 0 <= j < 4 && #[trigger] shape_at(s, j);
        let i = if j >= k { j - k } else { j - k + 4 };
        lemma_rotate_twice(s, k, i);
        assert(shape_at(t, i));
    }
    if exists|i: int| 0 <= i < 4 && #[trigger] shape_at(t, i) {
        let i = choose|i: int| 0 <= i < 4 && #[trigger] shape_at(t, i);
        lemma_rotate_twice(s, k, i);
        let j = if k + i < 4 { k + i } else { k + i - 4 };
        assert(shape_at(s, j));
    }
}

} // verus!
