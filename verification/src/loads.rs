use vstd::prelude::*;

verus! {

/// A concentrated load at a node. `F` is the number type of the load's
/// magnitudes, which the logic here carries through untouched.
#[derive(Clone, Copy, Debug)]
pub struct SolverNodalLoad<F> {
    pub node_id: usize,
    pub fx: F,
    pub fy: F,
    pub mz: F,
}

/// A linearly varying load along (part of) an element.
#[derive(Clone, Copy, Debug)]
pub struct SolverDistributedLoad<F> {
    pub element_id: usize,
    pub q_i: F,
    pub q_j: F,
    pub a: Option<F>,
    pub b: Option<F>,
}

/// A point load at distance `a` along an element.
#[derive(Clone, Copy, Debug)]
pub struct SolverPointLoadOnElement<F> {
    pub element_id: usize,
    pub a: F,
    pub p: F,
    pub px: Option<F>,
    pub mz: Option<F>,
}

/// A temperature change of an element, uniform and through the depth.
#[derive(Clone, Copy, Debug)]
pub struct SolverThermalLoad<F> {
    pub element_id: usize,
    pub dt_uniform: F,
    pub dt_gradient: F,
}

/// A load of a 2D analysis.
#[derive(Clone, Copy, Debug)]
pub enum SolverLoad<F> {
    Nodal(SolverNodalLoad<F>),
    Distributed(SolverDistributedLoad<F>),
    PointOnElement(SolverPointLoadOnElement<F>),
    Thermal(SolverThermalLoad<F>),
}

/// A permanent load: nodal, distributed or thermal (not a point load on an
/// element, which is what a moving load becomes).
pub open spec fn is_permanent<F>(load: SolverLoad<F>) -> bool {
    ||| load is Nodal
    ||| load is Distributed
    ||| load is Thermal
}

/// The permanent loads of a load case, in their order: what stays on the
/// structure while a load train moves across it.
pub fn base_loads<F: Copy>(loads: &Vec<SolverLoad<F>>) -> (kept: Vec<SolverLoad<F>>)
    ensures
        kept@ == loads@.filter(|l: SolverLoad<F>| is_permanent(l)),
        kept@ == loads@.filter(|l: SolverLoad<F>| !(l is PointOnElement)),
        forall|k: int| 0 <= k < kept.len() ==> !(#[trigger] kept@[k] is PointOnElement),
{
    let ghost pred = |l: SolverLoad<F>| is_permanent(l);
    let mut kept: Vec<SolverLoad<F>> = Vec::new();
    for i in 0..loads.len()
        invariant
            pred == (|l: SolverLoad<F>| is_permanent(l)),
            kept@ == loads@.subrange(0, i as int).filter(pred),
    {
        let load = loads[i];
        let ghost before = kept@;
        assert(loads@.subrange(0, i + 1).last() == load);
        match load {
            SolverLoad::Nodal(_) | SolverLoad::Distributed(_) | SolverLoad::Thermal(_) => {
                kept.push(load);
            },
            SolverLoad::PointOnElement(_) => {},
        }
        proof {
            reveal(Seq::filter);
            let prefix = loads@.subrange(0, i + 1);
            assert(prefix.drop_last() =~= loads@.subrange(0, i as int));
            assert(kept@ =~= prefix.filter(pred));
        }
    }
    assert(loads@.subrange(0, loads.len() as int) =~= loads@);
    proof {
        lemma_permanent_means_not_point_load::<F>();
        let not_point = |l: SolverLoad<F>| !(l is PointOnElement);
        assert forall|k: int| 0 <= k < kept.len() implies !(#[trigger] kept@[k] is PointOnElement) by {
            loads@.lemma_filter_pred(not_point, k);
        }
    }
    kept
}

/// A load is permanent exactly when it is not a point load on an element: the
/// moving-load run drops point loads and keeps every other kind.
pub proof fn lemma_permanent_means_not_point_load<F>()
    ensures
        (|l: SolverLoad<F>| is_permanent(l)) == (|l: SolverLoad<F>| !(l is PointOnElement)),
        forall|l: SolverLoad<F>| #[trigger] is_permanent(l) <==> !(l is PointOnElement),
{
    assert((|l: SolverLoad<F>| is_permanent(l)) =~= (|l: SolverLoad<F>| !(l is PointOnElement)));
}

/// Taking the permanent loads of the permanent loads changes nothing: the
/// loads kept for one load position can be filtered again safely.
pub proof fn lemma_base_loads_idempotent<F>(loads: Seq<SolverLoad<F>>)
    ensures
        loads.filter(|l: SolverLoad<F>| is_permanent(l)).filter(|l: SolverLoad<F>| is_permanent(l))
            == loads.filter(|l: SolverLoad<F>| is_permanent(l)),
    decreases loads.len(),
{
    let pred = |l: SolverLoad<F>| is_permanent(l);
    reveal(Seq::filter);
    if loads.len() > 0 {
        lemma_base_loads_idempotent(loads.drop_last());
        let f = loads.drop_last().filter(pred);
        if pred(loads.last()) {
            assert(f.push(loads.last()).drop_last() =~= f);
        }
    }
}

} // verus!
