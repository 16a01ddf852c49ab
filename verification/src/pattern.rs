use vstd::prelude::*;
use vstd::arithmetic::power::pow;

verus! {

/// One entry of an element matrix, as `coef · L^l_power` times the matrix's
/// scale factor (`L` is the element length).
#[derive(Clone, Copy, Debug, PartialEq, Eq, Structural)]
pub struct LengthTerm {
    pub coef: i64,
    pub l_power: u32,
}

/// The entry `coef · L^p`.
pub open spec fn lt(coef: i64, p: u32) -> LengthTerm {
    LengthTerm { coef, l_power: p }
}

/// Builds the entry `coef · L^l_power`.
pub(crate) fn length_term(coef: i64, l_power: u32) -> (r: LengthTerm)
    ensures
        r == lt(coef, l_power),
{
    LengthTerm { coef, l_power }
}

/// Entry (i, j) of an n×n matrix stored row-major.
pub open spec fn entry<T>(m: Seq<T>, n: int, i: int, j: int) -> T {
    m[i * n + j]
}

/// `m` is an n×n matrix equal to its transpose.
pub open spec fn is_symmetric<T>(m: Seq<T>, n: int) -> bool {
    &&& m.len() == n * n
    &&& forall|i: int, j: int| 0 <= i < n && 0 <= j < n ==> #[trigger] entry(m, n, i, j) == entry(m, n, j, i)
}

/// The DOF that DOF `i` of a 2D frame element (u1, v1, θ1, u2, v2, θ2)
/// becomes when the element is reversed: the ends swap.
pub open spec fn reversed_dof(i: int) -> int {
    if i < 3 {
        i + 3
    } else {
        i - 3
    }
}

/// The sign that DOF `i` takes when the element is reversed: the local axis
/// keeps its direction for translations, rotations change sign.
pub open spec fn reversal_sign(i: int) -> int {
    if i == 2 || i == 5 {
        -1
    } else {
        1
    }
}

/// A 6×6 frame element matrix is unchanged by reversing the element:
/// entry (i, j) equals entry (i', j') of the swapped DOFs, with the signs of
/// the rotations flipped.
pub open spec fn is_reversal_symmetric(m: Seq<LengthTerm>) -> bool {
    forall|i: int, j: int|
        0 <= i < 6 && 0 <= j < 6 ==> {
            &&& (#[trigger] entry(m, 6, i, j)).l_power == entry(m, 6, reversed_dof(i), reversed_dof(j)).l_power
            &&& entry(m, 6, i, j).coef == reversal_sign(i) * reversal_sign(j) * entry(
                m,
                6,
                reversed_dof(i),
                reversed_dof(j),
            ).coef
        }
}

/// The value of an entry for element length `l`, in units of the scale.
pub open spec fn length_value(t: LengthTerm, l: int) -> int {
    t.coef * pow(l, t.l_power as nat)
}

/// Row `r` of a 6×6 matrix for length `l` applied to the vector `d`.
pub open spec fn row_times(m: Seq<LengthTerm>, r: int, l: int, d: Seq<int>) -> int {
    length_value(entry(m, 6, r, 0), l) * d[0] + length_value(entry(m, 6, r, 1), l) * d[1]
        + length_value(entry(m, 6, r, 2), l) * d[2] + length_value(entry(m, 6, r, 3), l) * d[3]
        + length_value(entry(m, 6, r, 4), l) * d[4] + length_value(entry(m, 6, r, 5), l) * d[5]
}

/// The displacements of a rigid rotation of unit angle about node i of an
/// element of length `l`: v = x·θ along the element.
pub open spec fn rigid_rotation(l: int) -> Seq<int> {
    seq![0, 0, 1, 0, l, 1]
}

/// The displacements of a rigid transverse translation of unit size.
pub open spec fn rigid_transverse_translation() -> Seq<int> {
    seq![0, 1, 0, 0, 1, 0]
}

/// Row `r` of `m` applied to a rigid rotation.
pub open spec fn rotation_row(m: Seq<LengthTerm>, r: int, l: int) -> int {
    row_times(m, r, l, rigid_rotation(l))
}

/// Row `r` of `m` applied to a rigid transverse translation.
pub open spec fn translation_row(m: Seq<LengthTerm>, r: int, l: int) -> int {
    row_times(m, r, l, rigid_transverse_translation())
}

/// dᵀ·m·d for the rigid rotation d.
pub open spec fn rotation_energy(m: Seq<LengthTerm>, l: int) -> int {
    let d = rigid_rotation(l);
    d[0] * rotation_row(m, 0, l) + d[1] * rotation_row(m, 1, l) + d[2] * rotation_row(m, 2, l)
        + d[3] * rotation_row(m, 3, l) + d[4] * rotation_row(m, 4, l) + d[5] * rotation_row(m, 5, l)
}

/// Unfolds the reversal condition at one entry into the cases of the sign.
pub proof fn lemma_reversal_entry(m: Seq<LengthTerm>, i: int, j: int)
    requires
        0 <= i < 6,
        0 <= j < 6,
        m.len() == 36,
        entry(m, 6, i, j).l_power == entry(m, 6, reversed_dof(i), reversed_dof(j)).l_power,
        (i == 2 || i == 5) == (j == 2 || j == 5) ==> entry(m, 6, i, j).coef == entry(
            m,
            6,
            reversed_dof(i),
            reversed_dof(j),
        ).coef,
        (i == 2 || i == 5) != (j == 2 || j == 5) ==> entry(m, 6, i, j).coef == -entry(
            m,
            6,
            reversed_dof(i),
            reversed_dof(j),
        ).coef,
    ensures
        entry(m, 6, i, j).coef == reversal_sign(i) * reversal_sign(j) * entry(
            m,
            6,
            reversed_dof(i),
            reversed_dof(j),
        ).coef,
{
    let c = entry(m, 6, reversed_dof(i), reversed_dof(j)).coef as int;
    if i == 2 || i == 5 {
        assert(reversal_sign(i) == -1);
        if j == 2 || j == 5 {
            assert(reversal_sign(j) == -1);
            let (si, sj) = (reversal_sign(i), reversal_sign(j));
            assert(si * sj * c == c) by (nonlinear_arith)
                requires si == -1, sj == -1;
        } else {
            assert(reversal_sign(j) == 1);
            let (si, sj) = (reversal_sign(i), reversal_sign(j));
            assert(si * sj * c == -c) by (nonlinear_arith)
                requires si == -1, sj == 1;
        }
    } else {
        assert(reversal_sign(i) == 1);
        if j == 2 || j == 5 {
            assert(reversal_sign(j) == -1);
            let (si, sj) = (reversal_sign(i), reversal_sign(j));
            assert(si * sj * c == -c) by (nonlinear_arith)
                requires si == 1, sj == -1;
        } else {
            assert(reversal_sign(j) == 1);
            let (si, sj) = (reversal_sign(i), reversal_sign(j));
            assert(si * sj * c == c) by (nonlinear_arith)
                requires si == 1, sj == 1;
        }
    }
}

/// `pow` at the exponents the element tables use.
pub proof fn lemma_small_powers(l: int)
    ensures
        pow(l, 0) == 1,
        pow(l, 1) == l,
        pow(l, 2) == l * l,
{
    reveal_with_fuel(pow, 3);
}

} // verus!
