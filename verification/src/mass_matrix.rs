use vstd::prelude::*;
use crate::pattern::{
    LengthTerm, lt, length_term, entry, is_symmetric, is_reversal_symmetric, reversed_dof,
    reversal_sign, translation_row, rotation_energy, rotation_row, length_value,
    lemma_small_powers, rigid_rotation, rigid_transverse_translation, lemma_reversal_entry,
};

verus! {

/// An element mass matrix in row-major order. Entry `k` is
/// `terms[k].coef · L^terms[k].l_power · ρA·L / denominator`, where `ρA` is
/// the mass per unit length.
pub struct MassPattern {
    pub denominator: i64,
    pub terms: Vec<LengthTerm>,
}

/// The consistent mass matrix of a 2D frame element in local axes
/// (DOFs u1, v1, θ1, u2, v2, θ2), over ρA·L/420.
pub open spec fn consistent_frame_mass() -> Seq<LengthTerm> {
    seq![
        lt(140, 0), lt(0, 0), lt(0, 0), lt(70, 0), lt(0, 0), lt(0, 0),
        lt(0, 0), lt(156, 0), lt(22, 1), lt(0, 0), lt(54, 0), lt(-13i64, 1),
        lt(0, 0), lt(22, 1), lt(4, 2), lt(0, 0), lt(13, 1), lt(-3i64, 2),
        lt(70, 0), lt(0, 0), lt(0, 0), lt(140, 0), lt(0, 0), lt(0, 0),
        lt(0, 0), lt(54, 0), lt(13, 1), lt(0, 0), lt(156, 0), lt(-22i64, 1),
        lt(0, 0), lt(-13i64, 1), lt(-3i64, 2), lt(0, 0), lt(-22i64, 1), lt(4, 2),
    ]
}

/// The lumped mass matrix used for a frame element with a hinge: half the
/// element mass on each translational DOF, over ρA·L/2.
pub open spec fn lumped_frame_mass() -> Seq<LengthTerm> {
    seq![
        lt(1, 0), lt(0, 0), lt(0, 0), lt(0, 0), lt(0, 0), lt(0, 0),
        lt(0, 0), lt(1, 0), lt(0, 0), lt(0, 0), lt(0, 0), lt(0, 0),
        lt(0, 0), lt(0, 0), lt(0, 0), lt(0, 0), lt(0, 0), lt(0, 0),
        lt(0, 0), lt(0, 0), lt(0, 0), lt(1, 0), lt(0, 0), lt(0, 0),
        lt(0, 0), lt(0, 0), lt(0, 0), lt(0, 0), lt(1, 0), lt(0, 0),
        lt(0, 0), lt(0, 0), lt(0, 0), lt(0, 0), lt(0, 0), lt(0, 0),
    ]
}

/// The consistent mass matrix of a 2D truss element in global axes
/// (DOFs ux1, uy1, ux2, uy2), over ρA·L/6.
pub open spec fn consistent_truss_mass() -> Seq<LengthTerm> {
    seq![
        lt(2, 0), lt(0, 0), lt(1, 0), lt(0, 0),
        lt(0, 0), lt(2, 0), lt(0, 0), lt(1, 0),
        lt(1, 0), lt(0, 0), lt(2, 0), lt(0, 0),
        lt(0, 0), lt(1, 0), lt(0, 0), lt(2, 0),
    ]
}

/// Mass matrix of a 2D frame element: consistent when neither end is hinged,
/// lumped when one is.
pub fn frame_consistent_mass(hinge_start: bool, hinge_end: bool) -> (m: MassPattern)
    ensures
        !hinge_start && !hinge_end ==> m.denominator == 420 && m.terms@ == consistent_frame_mass(),
        (hinge_start || hinge_end) ==> m.denominator == 2 && m.terms@ == lumped_frame_mass(),
{
    if !hinge_start && !hinge_end {
        let terms = vec![
            length_term(140, 0), length_term(0, 0), length_term(0, 0), length_term(70, 0), length_term(0, 0), length_term(0, 0),
            length_term(0, 0), length_term(156, 0), length_term(22, 1), length_term(0, 0), length_term(54, 0), length_term(-13, 1),
            length_term(0, 0), length_term(22, 1), length_term(4, 2), length_term(0, 0), length_term(13, 1), length_term(-3, 2),
            length_term(70, 0), length_term(0, 0), length_term(0, 0), length_term(140, 0), length_term(0, 0), length_term(0, 0),
            length_term(0, 0), length_term(54, 0), length_term(13, 1), length_term(0, 0), length_term(156, 0), length_term(-22, 1),
            length_term(0, 0), length_term(-13, 1), length_term(-3, 2), length_term(0, 0), length_term(-22, 1), length_term(4, 2),
        ];
        assert(terms@ =~= consistent_frame_mass());
        MassPattern { denominator: 420, terms }
    } else {
        let terms = vec![
            length_term(1, 0), length_term(0, 0), length_term(0, 0), length_term(0, 0), length_term(0, 0), length_term(0, 0),
            length_term(0, 0), length_term(1, 0), length_term(0, 0), length_term(0, 0), length_term(0, 0), length_term(0, 0),
            length_term(0, 0), length_term(0, 0), length_term(0, 0), length_term(0, 0), length_term(0, 0), length_term(0, 0),
            length_term(0, 0), length_term(0, 0), length_term(0, 0), length_term(1, 0), length_term(0, 0), length_term(0, 0),
            length_term(0, 0), length_term(0, 0), length_term(0, 0), length_term(0, 0), length_term(1, 0), length_term(0, 0),
            length_term(0, 0), length_term(0, 0), length_term(0, 0), length_term(0, 0), length_term(0, 0), length_term(0, 0),
        ];
        assert(terms@ =~= lumped_frame_mass());
        MassPattern { denominator: 2, terms }
    }
}

/// Consistent mass matrix of a 2D truss element.
pub fn truss_consistent_mass() -> (m: MassPattern)
    ensures
        m.denominator == 6,
        m.terms@ == consistent_truss_mass(),
{
    let terms = vec![
        length_term(2, 0), length_term(0, 0), length_term(1, 0), length_term(0, 0),
        length_term(0, 0), length_term(2, 0), length_term(0, 0), length_term(1, 0),
        length_term(1, 0), length_term(0, 0), length_term(2, 0), length_term(0, 0),
        length_term(0, 0), length_term(1, 0), length_term(0, 0), length_term(2, 0),
    ];
    assert(terms@ =~= consistent_truss_mass());
    MassPattern { denominator: 6, terms }
}

/// The mass that the DOFs `a` and `b` (one translation at each end) carry,
/// in units of the matrix's scale: the sum of the four entries that couple
/// them, none of which has a factor of `L`.
pub open spec fn carries_mass(m: Seq<LengthTerm>, n: int, a: int, b: int, mass: int) -> bool {
    &&& entry(m, n, a, a).l_power == 0
    &&& entry(m, n, a, b).l_power == 0
    &&& entry(m, n, b, a).l_power == 0
    &&& entry(m, n, b, b).l_power == 0
    &&& entry(m, n, a, a).coef + entry(m, n, a, b).coef + entry(m, n, b, a).coef + entry(m, n, b, b).coef
        == mass
}

/// The consistent frame mass matrix is symmetric, and in each local
/// direction (axial u1/u2, transverse v1/v2) it carries the whole element
/// mass ρA·L: 420 units of ρA·L/420.
pub proof fn lemma_consistent_frame_mass_laws()
    ensures
        is_symmetric(consistent_frame_mass(), 6),
        carries_mass(consistent_frame_mass(), 6, 0, 3, 420),
        carries_mass(consistent_frame_mass(), 6, 1, 4, 420),
{
    let m = consistent_frame_mass();
    assert forall|i: int, j: int| 0 <= i < 6 && 0 <= j < 6 implies #[trigger] entry(m, 6, i, j) == entry(m, 6, j, i) by {
        assert(0 <= i * 6 + j < 36);
    }
}

/// The lumped frame mass matrix is symmetric, and in each local direction it
/// carries the whole element mass ρA·L: 2 units of ρA·L/2.
pub proof fn lemma_lumped_frame_mass_laws()
    ensures
        is_symmetric(lumped_frame_mass(), 6),
        carries_mass(lumped_frame_mass(), 6, 0, 3, 2),
        carries_mass(lumped_frame_mass(), 6, 1, 4, 2),
{
}

/// The consistent truss mass matrix is symmetric, and in each global
/// direction it carries the whole element mass ρA·L: 6 units of ρA·L/6.
pub proof fn lemma_truss_mass_laws()
    ensures
        is_symmetric(consistent_truss_mass(), 4),
        carries_mass(consistent_truss_mass(), 4, 0, 2, 6),
        carries_mass(consistent_truss_mass(), 4, 1, 3, 6),
{
}

/// The consistent frame mass matrix does not depend on which end is called
/// node i: reversing the element (ends swapped, rotations negated) leaves it
/// unchanged.
pub proof fn lemma_consistent_frame_mass_reversal()
    ensures
        is_reversal_symmetric(consistent_frame_mass()),
{
    let m = consistent_frame_mass();
    assert forall|i: int, j: int| 0 <= i < 6 && 0 <= j < 6 implies {
        &&& (#[trigger] entry(m, 6, i, j)).l_power == entry(m, 6, reversed_dof(i), reversed_dof(j)).l_power
        &&& entry(m, 6, i, j).coef == reversal_sign(i) * reversal_sign(j) * entry(
            m,
            6,
            reversed_dof(i),
            reversed_dof(j),
        ).coef
    } by {
        lemma_reversal_entry(m, i, j);
    }
}

/// Under a uniform transverse acceleration (a rigid transverse translation)
/// the consistent frame mass gives the consistent load of the element's own
/// weight: half of ρA·L at each end and end moments ±ρA·L²/12 (in units of
/// ρA·L/420: 210 and ±35·L), with nothing axial.
pub proof fn lemma_consistent_frame_mass_translation(l: int)
    ensures
        translation_row(consistent_frame_mass(), 0, l) == 0,
        translation_row(consistent_frame_mass(), 1, l) == 210,
        translation_row(consistent_frame_mass(), 2, l) == 35 * l,
        translation_row(consistent_frame_mass(), 3, l) == 0,
        translation_row(consistent_frame_mass(), 4, l) == 210,
        translation_row(consistent_frame_mass(), 5, l) == -35 * l,
{
    let m = consistent_frame_mass();
    lemma_small_powers(l);
    let d = rigid_transverse_translation();
    assert(d[0] == 0 && d[1] == 1 && d[2] == 0 && d[3] == 0 && d[4] == 1 && d[5] == 0);
    assert(entry(m, 6, 2, 1) == lt(22, 1) && entry(m, 6, 2, 4) == lt(13, 1));
    assert(length_value(entry(m, 6, 2, 1), l) == 22 * l);
    assert(length_value(entry(m, 6, 2, 4), l) == 13 * l);
    assert(translation_row(m, 2, l) == 22 * l + 13 * l);
    assert(entry(m, 6, 5, 1) == lt(-13i64, 1) && entry(m, 6, 5, 4) == lt(-22i64, 1));
}

/// A rigid rotation about node i carries the rotational inertia of the bar
/// about that end, ρA·L³/3 (140·L² in units of ρA·L/420).
pub proof fn lemma_consistent_frame_mass_rotation(l: int)
    ensures
        rotation_energy(consistent_frame_mass(), l) == 140 * (l * l),
{
    let m = consistent_frame_mass();
    lemma_small_powers(l);
    let d = rigid_rotation(l);
    assert(d[0] == 0 && d[1] == 0 && d[2] == 1 && d[3] == 0 && d[4] == l && d[5] == 1);
    let r2 = rotation_row(m, 2, l);
    let r4 = rotation_row(m, 4, l);
    let r5 = rotation_row(m, 5, l);
    assert(entry(m, 6, 2, 2) == lt(4, 2) && entry(m, 6, 2, 4) == lt(13, 1) && entry(m, 6, 2, 5) == lt(-3i64, 2));
    assert(entry(m, 6, 4, 2) == lt(13, 1) && entry(m, 6, 4, 4) == lt(156, 0) && entry(m, 6, 4, 5) == lt(-22i64, 1));
    assert(entry(m, 6, 5, 2) == lt(-3i64, 2) && entry(m, 6, 5, 4) == lt(-22i64, 1) && entry(m, 6, 5, 5) == lt(4, 2));
    assert(r2 == 4 * (l * l) + 13 * l * l - 3 * (l * l)) by (nonlinear_arith)
        requires r2 == 4 * (l * l) * 1 + 13 * l * l + -3 * (l * l) * 1;
    assert(r4 == 13 * l + 156 * l - 22 * l) by (nonlinear_arith)
        requires r4 == 13 * l * 1 + 156 * 1 * l + -22 * l * 1;
    assert(r5 == -3 * (l * l) - 22 * l * l + 4 * (l * l)) by (nonlinear_arith)
        requires r5 == -3 * (l * l) * 1 + -22 * l * l + 4 * (l * l) * 1;
    assert(rotation_energy(m, l) == 140 * (l * l)) by (nonlinear_arith)
        requires
            rotation_energy(m, l) == r2 + l * r4 + r5,
            r2 == 4 * (l * l) + 13 * l * l - 3 * (l * l),
            r4 == 13 * l + 156 * l - 22 * l,
            r5 == -3 * (l * l) - 22 * l * l + 4 * (l * l);
}

/// The truss mass matrix treats both ends and both directions alike: every
/// diagonal entry is the same, the two ends of a direction are coupled by the
/// same entry in x and in y, the x and y motions are not coupled, and no entry
/// depends on the length beyond the scale ρA·L/6. With
/// `lemma_truss_mass_laws` this makes each direction's block [[2, 1], [1, 2]].
pub proof fn lemma_truss_mass_isotropic()
    ensures
        ({
            let m = consistent_truss_mass();
            &&& entry(m, 4, 0, 0) == entry(m, 4, 1, 1)
            &&& entry(m, 4, 1, 1) == entry(m, 4, 2, 2)
            &&& entry(m, 4, 2, 2) == entry(m, 4, 3, 3)
            &&& entry(m, 4, 0, 2) == entry(m, 4, 1, 3)
            &&& forall|i: int, j: int|
                0 <= i < 4 && 0 <= j < 4 && (i + j) % 2 == 1 ==> (#[trigger] entry(m, 4, i, j)).coef == 0
            &&& forall|i: int, j: int| 0 <= i < 4 && 0 <= j < 4 ==> (#[trigger] entry(m, 4, i, j)).l_power == 0
        }),
{
    let m = consistent_truss_mass();
    assert forall|i: int, j: int| 0 <= i < 4 && 0 <= j < 4 && (i + j) % 2 == 1 implies (#[trigger] entry(m, 4, i, j)).coef == 0 by {
        assert(0 <= i * 4 + j < 16);
    }
    assert forall|i: int, j: int| 0 <= i < 4 && 0 <= j < 4 implies (#[trigger] entry(m, 4, i, j)).l_power == 0 by {
        assert(0 <= i * 4 + j < 16);
    }
}

/// The lumped frame mass matrix, too, is unchanged by reversing the element.
pub proof fn lemma_lumped_frame_mass_reversal()
    ensures
        is_reversal_symmetric(lumped_frame_mass()),
{
    let m = lumped_frame_mass();
    assert forall|i: int, j: int| 0 <= i < 6 && 0 <= j < 6 implies {
        &&& (#[trigger] entry(m, 6, i, j)).l_power == entry(m, 6, reversed_dof(i), reversed_dof(j)).l_power
        &&& entry(m, 6, i, j).coef == reversal_sign(i) * reversal_sign(j) * entry(
            m,
            6,
            reversed_dof(i),
            reversed_dof(j),
        ).coef
    } by {
        lemma_reversal_entry(m, i, j);
    }
}

/// The kinetic energy of each cubic end shape of the consistent frame mass is
/// ρA times the integral of its square: 13·ρA·L/35 for a unit end deflection
/// (156 units of ρA·L/420) and ρA·L³/105 for a unit end rotation (4·L²
/// units), and ρA·L/3 for a unit axial end displacement (140 units).
pub proof fn lemma_consistent_frame_mass_shapes()
    ensures
        entry(consistent_frame_mass(), 6, 0, 0) == lt(140, 0),
        entry(consistent_frame_mass(), 6, 1, 1) == lt(156, 0),
        entry(consistent_frame_mass(), 6, 2, 2) == lt(4, 2),
{
}

/// Each end's own unit motion in a truss element carries ρA·L/3 of kinetic
/// energy: every diagonal entry is 2 units of ρA·L/6.
pub proof fn lemma_truss_mass_end_shapes()
    ensures
        forall|i: int| 0 <= i < 4 ==> #[trigger] entry(consistent_truss_mass(), 4, i, i) == lt(2, 0),
{
    let m = consistent_truss_mass();
    assert forall|i: int| 0 <= i < 4 implies #[trigger] entry(m, 4, i, i) == lt(2, 0) by {
        assert(0 <= i * 4 + i < 16);
    }
}

/// The lumped frame mass holds no rotational inertia and couples no DOFs:
/// its only non-zero entries are on the diagonal of the translations.
pub proof fn lemma_lumped_frame_mass_is_diagonal()
    ensures
        forall|i: int, j: int|
            0 <= i < 6 && 0 <= j < 6 && (i != j || i == 2 || i == 5) ==> (#[trigger] entry(
                lumped_frame_mass(),
                6,
                i,
                j,
            )).coef == 0,
{
    let m = lumped_frame_mass();
    assert forall|i: int, j: int| 0 <= i < 6 && 0 <= j < 6 && (i != j || i == 2 || i == 5) implies (#[trigger] entry(m, 6, i, j)).coef == 0 by {
        assert(0 <= i * 6 + j < 36);
    }
}

} // verus!
