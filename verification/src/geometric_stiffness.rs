use vstd::prelude::*;
use vstd::arithmetic::power::pow;
use crate::pattern::{
    LengthTerm, lt, length_term, entry, is_symmetric, is_reversal_symmetric, reversed_dof,
    reversal_sign, lemma_reversal_entry, rotation_row, lemma_small_powers,
    rigid_rotation,
};

verus! {

/// The local geometric stiffness matrix of a 2D frame element (DOFs u1, v1,
/// θ1, u2, v2, θ2) in row-major order. Entry `k` is
/// `terms[k].coef · L^terms[k].l_power · P / (denominator · L)` for an axial
/// force `P` (tension positive).
pub struct StiffnessPattern {
    pub denominator: i64,
    pub terms: Vec<LengthTerm>,
}

/// The frame geometric stiffness table, over P/(30·L).
pub open spec fn frame_geometric_stiffness() -> Seq<LengthTerm> {
    seq![
        lt(0, 0), lt(0, 0), lt(0, 0), lt(0, 0), lt(0, 0), lt(0, 0),
        lt(0, 0), lt(36, 0), lt(3, 1), lt(0, 0), lt(-36i64, 0), lt(3, 1),
        lt(0, 0), lt(3, 1), lt(4, 2), lt(0, 0), lt(-3i64, 1), lt(-1i64, 2),
        lt(0, 0), lt(0, 0), lt(0, 0), lt(0, 0), lt(0, 0), lt(0, 0),
        lt(0, 0), lt(-36i64, 0), lt(-3i64, 1), lt(0, 0), lt(36, 0), lt(-3i64, 1),
        lt(0, 0), lt(3, 1), lt(-1i64, 2), lt(0, 0), lt(-3i64, 1), lt(4, 2),
    ]
}

/// Geometric stiffness of a 2D frame element in local axes (Przemieniecki).
pub fn frame_geometric_stiffness_local() -> (k: StiffnessPattern)
    ensures
        k.denominator == 30,
        k.terms@ == frame_geometric_stiffness(),
{
    let terms = vec![
        length_term(0, 0), length_term(0, 0), length_term(0, 0),
        length_term(0, 0), length_term(0, 0), length_term(0, 0),
        length_term(0, 0), length_term(36, 0), length_term(3, 1),
        length_term(0, 0), length_term(-36, 0), length_term(3, 1),
        length_term(0, 0), length_term(3, 1), length_term(4, 2),
        length_term(0, 0), length_term(-3, 1), length_term(-1, 2),
        length_term(0, 0), length_term(0, 0), length_term(0, 0),
        length_term(0, 0), length_term(0, 0), length_term(0, 0),
        length_term(0, 0), length_term(-36, 0), length_term(-3, 1),
        length_term(0, 0), length_term(36, 0), length_term(-3, 1),
        length_term(0, 0), length_term(3, 1), length_term(-1, 2),
        length_term(0, 0), length_term(-3, 1), length_term(4, 2),
    ];
    assert(terms@ =~= frame_geometric_stiffness());
    StiffnessPattern { denominator: 30, terms }
}

/// The frame geometric stiffness matrix is symmetric, does not touch the
/// axial DOFs u1 and u2, and exerts no force under a rigid transverse
/// translation (v1 = v2, θ1 = θ2 = 0): in every row the v1 and v2 entries
/// cancel.
pub proof fn lemma_frame_geometric_stiffness_laws()
    ensures
        is_symmetric(frame_geometric_stiffness(), 6),
        forall|k: int| 0 <= k < 6 ==> (#[trigger] entry(frame_geometric_stiffness(), 6, 0, k)).coef == 0
            && entry(frame_geometric_stiffness(), 6, 3, k).coef == 0,
        forall|r: int|
            0 <= r < 6 ==> {
                &&& (#[trigger] entry(frame_geometric_stiffness(), 6, r, 1)).coef + entry(
                    frame_geometric_stiffness(),
                    6,
                    r,
                    4,
                ).coef == 0
                &&& entry(frame_geometric_stiffness(), 6, r, 1).l_power == entry(
                    frame_geometric_stiffness(),
                    6,
                    r,
                    4,
                ).l_power
            },
{
    let m = frame_geometric_stiffness();
    assert forall|i: int, j: int| 0 <= i < 6 && 0 <= j < 6 implies #[trigger] entry(m, 6, i, j) == entry(m, 6, j, i) by {
        assert(0 <= i * 6 + j < 36);
    }
}

/// The frame geometric stiffness matrix does not depend on which end is
/// called node i: reversing the element (ends swapped, rotations negated)
/// leaves it unchanged.
pub proof fn lemma_frame_geometric_stiffness_reversal()
    ensures
        is_reversal_symmetric(frame_geometric_stiffness()),
{
    let m = frame_geometric_stiffness();
    assert forall|i: int, j: int| 0 <= i < 6 && 0 <= j < 6 implies {
        &&& (#[trigger] entry(m, 6, i, j)).l_power == entry(m, 6, reversed_dof(i), reversed_dof(j)).l_power
        &&& entry(m, 6, i, j).coef == reversal_sign(i) * reversal_sign(j) * entry(
            m,
            6,
            reversed_dof(i),
            reversed_dof(j),
        ).coef
    } by {
        lemma_reversal_entry(m, i, j);
    }
}

/// Under a rigid rotation θ of the element the axial force P turns with it:
/// the geometric stiffness gives transverse end forces −P·θ at node i and
/// +P·θ at node j (∓30·L units of P/(30·L)) and no end moments and no axial
/// forces.
pub proof fn lemma_frame_geometric_stiffness_rotation(l: int)
    ensures
        rotation_row(frame_geometric_stiffness(), 0, l) == 0,
        rotation_row(frame_geometric_stiffness(), 1, l) == -30 * l,
        rotation_row(frame_geometric_stiffness(), 2, l) == 0,
        rotation_row(frame_geometric_stiffness(), 3, l) == 0,
        rotation_row(frame_geometric_stiffness(), 4, l) == 30 * l,
        rotation_row(frame_geometric_stiffness(), 5, l) == 0,
{
    let m = frame_geometric_stiffness();
    lemma_small_powers(l);
    let d = rigid_rotation(l);
    assert(d[0] == 0 && d[1] == 0 && d[2] == 1 && d[3] == 0 && d[4] == l && d[5] == 1);
    assert(entry(m, 6, 1, 2) == lt(3, 1) && entry(m, 6, 1, 4) == lt(-36i64, 0) && entry(m, 6, 1, 5) == lt(3, 1));
    assert(entry(m, 6, 4, 2) == lt(-3i64, 1) && entry(m, 6, 4, 4) == lt(36, 0) && entry(m, 6, 4, 5) == lt(-3i64, 1));
    assert(entry(m, 6, 2, 2) == lt(4, 2) && entry(m, 6, 2, 4) == lt(-3i64, 1) && entry(m, 6, 2, 5) == lt(-1i64, 2));
    assert(entry(m, 6, 5, 2) == lt(-1i64, 2) && entry(m, 6, 5, 4) == lt(-3i64, 1) && entry(m, 6, 5, 5) == lt(4, 2));
    assert forall|r: int, j: int| (r == 0 || r == 3) && 0 <= j < 6 implies #[trigger] entry(m, 6, r, j) == lt(0, 0) by {
        assert(0 <= r * 6 + j < 36);
    }
    assert(entry(m, 6, 1, 0) == lt(0, 0) && entry(m, 6, 1, 1) == lt(36, 0) && entry(m, 6, 1, 3) == lt(0, 0));
    assert(entry(m, 6, 4, 0) == lt(0, 0) && entry(m, 6, 4, 1) == lt(-36i64, 0) && entry(m, 6, 4, 3) == lt(0, 0));
    assert(entry(m, 6, 2, 0) == lt(0, 0) && entry(m, 6, 2, 1) == lt(3, 1) && entry(m, 6, 2, 3) == lt(0, 0));
    assert(entry(m, 6, 5, 0) == lt(0, 0) && entry(m, 6, 5, 1) == lt(3, 1) && entry(m, 6, 5, 3) == lt(0, 0));
    assert(entry(m, 6, 0, 0) == lt(0, 0) && entry(m, 6, 0, 1) == lt(0, 0) && entry(m, 6, 0, 2) == lt(0, 0));
    assert(entry(m, 6, 0, 3) == lt(0, 0) && entry(m, 6, 0, 4) == lt(0, 0) && entry(m, 6, 0, 5) == lt(0, 0));
    assert(entry(m, 6, 3, 0) == lt(0, 0) && entry(m, 6, 3, 1) == lt(0, 0) && entry(m, 6, 3, 2) == lt(0, 0));
    assert(entry(m, 6, 3, 3) == lt(0, 0) && entry(m, 6, 3, 4) == lt(0, 0) && entry(m, 6, 3, 5) == lt(0, 0));
    let r1 = rotation_row(m, 1, l);
    let r2 = rotation_row(m, 2, l);
    let r4 = rotation_row(m, 4, l);
    let r5 = rotation_row(m, 5, l);
    assert(r1 == -30 * l) by (nonlinear_arith)
        requires r1 == 0 * 1 * 0 + 36 * 1 * 0 + 3 * l * 1 + 0 * 1 * 0 + -36 * 1 * l + 3 * l * 1;
    assert(r4 == 30 * l) by (nonlinear_arith)
        requires r4 == 0 * 1 * 0 + -36 * 1 * 0 + -3 * l * 1 + 0 * 1 * 0 + 36 * 1 * l + -3 * l * 1;
    assert(r2 == 0) by (nonlinear_arith)
        requires r2 == 4 * (l * l) * 1 + -3 * l * l + -1 * (l * l) * 1;
    assert(r5 == 0) by (nonlinear_arith)
        requires r5 == -1 * (l * l) * 1 + -3 * l * l + 4 * (l * l) * 1;
}

/// The geometric stiffness of each cubic end shape is P times the integral of
/// its slope squared: 6·P/(5·L) for a unit end deflection (36 units of
/// P/(30·L)) and 2·P·L/15 for a unit end rotation (4·L² units).
pub proof fn lemma_frame_geometric_stiffness_shapes()
    ensures
        entry(frame_geometric_stiffness(), 6, 1, 1) == lt(36, 0),
        entry(frame_geometric_stiffness(), 6, 2, 2) == lt(4, 2),
{
}

/// One entry of a truss geometric stiffness matrix, as
/// `sign · cos^cos_power · sin^sin_power` times `P / L`, where `cos` and `sin`
/// give the direction of the member.
#[derive(Clone, Copy, Debug, PartialEq, Eq, Structural)]
pub struct TrigTerm {
    pub sign: i8,
    pub cos_power: u32,
    pub sin_power: u32,
}

/// The entry `sign · cos^a · sin^b`.
pub open spec fn tt(sign: i8, a: u32, b: u32) -> TrigTerm {
    TrigTerm { sign, cos_power: a, sin_power: b }
}

fn trig_term(sign: i8, cos_power: u32, sin_power: u32) -> (r: TrigTerm)
    ensures
        r == tt(sign, cos_power, sin_power),
{
    TrigTerm { sign, cos_power, sin_power }
}

/// The truss geometric stiffness table in global axes (DOFs ux1, uy1, ux2,
/// uy2), over P/L.
pub open spec fn truss_geometric_stiffness() -> Seq<TrigTerm> {
    seq![
        tt(1, 0, 2), tt(-1i8, 1, 1), tt(-1i8, 0, 2), tt(1, 1, 1),
        tt(-1i8, 1, 1), tt(1, 2, 0), tt(1, 1, 1), tt(-1i8, 2, 0),
        tt(-1i8, 0, 2), tt(1, 1, 1), tt(1, 0, 2), tt(-1i8, 1, 1),
        tt(1, 1, 1), tt(-1i8, 2, 0), tt(-1i8, 1, 1), tt(1, 2, 0),
    ]
}

/// Geometric stiffness of a 2D truss element in global axes.
pub fn truss_geometric_stiffness_global() -> (k: Vec<TrigTerm>)
    ensures
        k@ == truss_geometric_stiffness(),
{
    let k = vec![
        trig_term(1, 0, 2), trig_term(-1, 1, 1), trig_term(-1, 0, 2), trig_term(1, 1, 1),
        trig_term(-1, 1, 1), trig_term(1, 2, 0), trig_term(1, 1, 1), trig_term(-1, 2, 0),
        trig_term(-1, 0, 2), trig_term(1, 1, 1), trig_term(1, 0, 2), trig_term(-1, 1, 1),
        trig_term(1, 1, 1), trig_term(-1, 2, 0), trig_term(-1, 1, 1), trig_term(1, 2, 0),
    ];
    assert(k@ =~= truss_geometric_stiffness());
    k
}

/// The value of an entry for a member direction (c, s), in units of P/L.
pub open spec fn trig_value(t: TrigTerm, c: int, s: int) -> int {
    t.sign * pow(c, t.cos_power as nat) * pow(s, t.sin_power as nat)
}

/// Row `r` of the truss geometric stiffness applied to the displacement
/// `(d0, d1, d2, d3)`, in units of P/L.
pub open spec fn truss_row_force(r: int, c: int, s: int, d0: int, d1: int, d2: int, d3: int) -> int {
    let m = truss_geometric_stiffness();
    trig_value(entry(m, 4, r, 0), c, s) * d0 + trig_value(entry(m, 4, r, 1), c, s) * d1
        + trig_value(entry(m, 4, r, 2), c, s) * d2 + trig_value(entry(m, 4, r, 3), c, s) * d3
}

/// The truss geometric stiffness matrix is symmetric; a rigid translation of
/// the member, and a stretch along its own axis `(-c, -s, c, s)`, produce no
/// force (for every direction `(c, s)`).
pub proof fn lemma_truss_geometric_stiffness_laws(c: int, s: int, dx: int, dy: int)
    ensures
        is_symmetric(truss_geometric_stiffness(), 4),
        forall|r: int| 0 <= r < 4 ==> #[trigger] truss_row_force(r, c, s, dx, dy, dx, dy) == 0,
        forall|r: int| 0 <= r < 4 ==> #[trigger] truss_row_force(r, c, s, -c, -s, c, s) == 0,
{
    let m = truss_geometric_stiffness();
    assert forall|r: int| 0 <= r < 4 implies #[trigger] truss_row_force(r, c, s, dx, dy, dx, dy) == 0 by {
        lemma_truss_row(r, c, s, dx, dy);
    }
    assert forall|r: int| 0 <= r < 4 implies #[trigger] truss_row_force(r, c, s, -c, -s, c, s) == 0 by {
        lemma_truss_row(r, c, s, dx, dy);
    }
}

/// Moving one end of a truss across its axis by (−s, c) stores P/L·(c² + s²)²
/// in the geometric stiffness: the string stiffness P/L for a unit direction,
/// positive under tension.
pub proof fn lemma_truss_geometric_stiffness_transverse(c: int, s: int)
    ensures
        -s * truss_row_force(2, c, s, 0, 0, -s, c) + c * truss_row_force(3, c, s, 0, 0, -s, c)
            == (c * c + s * s) * (c * c + s * s),
{
    let m = truss_geometric_stiffness();
    reveal_with_fuel(pow, 3);
    assert(pow(c, 0) == 1 && pow(c, 1) == c && pow(c, 2) == c * c);
    assert(pow(s, 0) == 1 && pow(s, 1) == s && pow(s, 2) == s * s);
    assert(entry(m, 4, 2, 2) == tt(1, 0, 2) && entry(m, 4, 2, 3) == tt(-1i8, 1, 1));
    assert(entry(m, 4, 3, 2) == tt(-1i8, 1, 1) && entry(m, 4, 3, 3) == tt(1, 2, 0));
    assert(entry(m, 4, 2, 0) == tt(-1i8, 0, 2) && entry(m, 4, 2, 1) == tt(1, 1, 1));
    assert(entry(m, 4, 3, 0) == tt(1, 1, 1) && entry(m, 4, 3, 1) == tt(-1i8, 2, 0));
    let a = trig_value(entry(m, 4, 2, 2), c, s);
    let b = trig_value(entry(m, 4, 2, 3), c, s);
    let e = trig_value(entry(m, 4, 3, 2), c, s);
    let f = trig_value(entry(m, 4, 3, 3), c, s);
    assert(a == s * s) by (nonlinear_arith)
        requires a == 1 * 1 * (s * s);
    assert(b == -(c * s)) by (nonlinear_arith)
        requires b == -1 * c * s;
    assert(e == -(c * s)) by (nonlinear_arith)
        requires e == -1 * c * s;
    assert(f == c * c) by (nonlinear_arith)
        requires f == 1 * (c * c) * 1;
    let r2 = truss_row_force(2, c, s, 0, 0, -s, c);
    let r3 = truss_row_force(3, c, s, 0, 0, -s, c);
    let v20 = trig_value(entry(m, 4, 2, 0), c, s);
    let v21 = trig_value(entry(m, 4, 2, 1), c, s);
    let v30 = trig_value(entry(m, 4, 3, 0), c, s);
    let v31 = trig_value(entry(m, 4, 3, 1), c, s);
    assert(r2 == a * -s + b * c) by (nonlinear_arith)
        requires r2 == v20 * 0 + v21 * 0 + a * -s + b * c;
    assert(r3 == e * -s + f * c) by (nonlinear_arith)
        requires r3 == v30 * 0 + v31 * 0 + e * -s + f * c;
    assert(-s * r2 + c * r3 == (c * c + s * s) * (c * c + s * s)) by (nonlinear_arith)
        requires
            r2 == a * -s + b * c,
            r3 == e * -s + f * c,
            a == s * s,
            b == -(c * s),
            e == -(c * s),
            f == c * c;
}

proof fn lemma_row_cancels(v0: int, v1: int, v2: int, v3: int, c: int, s: int, dx: int, dy: int)
    by (nonlinear_arith)
    requires
        v2 == -v0,
        v3 == -v1,
        v0 * c + v1 * s == 0,
    ensures
        v0 * dx + v1 * dy + v2 * dx + v3 * dy == 0,
        v0 * -c + v1 * -s + v2 * c + v3 * s == 0,
{
}

proof fn lemma_truss_row(r: int, c: int, s: int, dx: int, dy: int)
    requires
        0 <= r < 4,
    ensures
        truss_row_force(r, c, s, dx, dy, dx, dy) == 0,
        truss_row_force(r, c, s, -c, -s, c, s) == 0,
{
    let m = truss_geometric_stiffness();
    reveal_with_fuel(pow, 3);
    assert(pow(c, 0) == 1 && pow(c, 1) == c && pow(c, 2) == c * c);
    assert(pow(s, 0) == 1 && pow(s, 1) == s && pow(s, 2) == s * s);
    let v0 = trig_value(entry(m, 4, r, 0), c, s);
    let v1 = trig_value(entry(m, 4, r, 1), c, s);
    let v2 = trig_value(entry(m, 4, r, 2), c, s);
    let v3 = trig_value(entry(m, 4, r, 3), c, s);
    assert(0 <= r * 4 < 16);
    if r == 0 || r == 2 {
        let sign: int = if r == 0 { 1 } else { -1 };
        assert(v0 == sign * (s * s)) by (nonlinear_arith)
            requires v0 == sign * 1 * (s * s);
        assert(v1 == -sign * (c * s)) by (nonlinear_arith)
            requires v1 == -sign * c * s;
        assert(v2 == -v0) by (nonlinear_arith)
            requires v2 == -sign * 1 * (s * s), v0 == sign * (s * s);
        assert(v3 == -v1) by (nonlinear_arith)
            requires v3 == sign * c * s, v1 == -sign * (c * s);
        assert(v0 * c + v1 * s == 0) by (nonlinear_arith)
            requires v0 == sign * (s * s), v1 == -sign * (c * s);
    } else {
        let sign: int = if r == 1 { 1 } else { -1 };
        assert(v0 == -sign * (c * s)) by (nonlinear_arith)
            requires v0 == -sign * c * s;
        assert(v1 == sign * (c * c)) by (nonlinear_arith)
            requires v1 == sign * (c * c) * 1;
        assert(v2 == -v0) by (nonlinear_arith)
            requires v2 == sign * c * s, v0 == -sign * (c * s);
        assert(v3 == -v1) by (nonlinear_arith)
            requires v3 == -sign * (c * c) * 1, v1 == sign * (c * c);
        assert(v0 * c + v1 * s == 0) by (nonlinear_arith)
            requires v0 == -sign * (c * s), v1 == sign * (c * c);
    }
    lemma_row_cancels(v0, v1, v2, v3, c, s, dx, dy);
}

} // verus!
