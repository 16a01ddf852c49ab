use vstd::prelude::*;
use crate::model::{same_text, first_match};

verus! {

/// Number of sample points taken along each element when an influence line
/// request does not say otherwise.
pub fn default_n_points() -> (n: usize)
    ensures
        n == 20,
{
    20
}

/// Why an influence line cannot be computed for a structure.
#[derive(Clone, Copy, Debug, PartialEq, Eq)]
pub enum InfluenceError {
    /// The structure has fewer than 2 nodes.
    TooFewNodes,
    /// The structure has no element.
    NoElements,
    /// The structure has no support.
    NoSupports,
}

/// The checks an influence line request must pass, in the order they are made.
pub open spec fn influence_check(n_nodes: nat, n_elements: nat, n_supports: nat) -> Result<
    (),
    InfluenceError,
> {
    if n_nodes < 2 {
        Err(InfluenceError::TooFewNodes)
    } else if n_elements == 0 {
        Err(InfluenceError::NoElements)
    } else if n_supports == 0 {
        Err(InfluenceError::NoSupports)
    } else {
        Ok(())
    }
}

/// The influence-line check refuses exactly the structures that miss a part:
/// it accepts every structure with at least 2 nodes, 1 element and 1
/// support, blames the nodes first, then the elements, and refuses for
/// supports only when there is none.
pub proof fn lemma_influence_check_refuses_only_missing_parts(
    n_nodes: nat,
    n_elements: nat,
    n_supports: nat,
)
    ensures
        influence_check(n_nodes, n_elements, n_supports) is Ok <==> n_nodes >= 2 && n_elements >= 1
            && n_supports >= 1,
        influence_check(n_nodes, n_elements, n_supports) == Err::<(), InfluenceError>(
            InfluenceError::TooFewNodes,
        ) <==> n_nodes < 2,
        influence_check(n_nodes, n_elements, n_supports) == Err::<(), InfluenceError>(
            InfluenceError::NoElements,
        ) <==> n_nodes >= 2 && n_elements == 0,
        n_nodes >= 2 && n_elements >= 1 ==> (influence_check(n_nodes, n_elements, n_supports)
            == Err::<(), InfluenceError>(InfluenceError::NoSupports) <==> n_supports == 0),
{
}

/// Checks that a structure can carry an influence line: at least 2 nodes,
/// 1 element and 1 support.
pub fn check_influence_input(n_nodes: usize, n_elements: usize, n_supports: usize) -> (r: Result<
    (),
    InfluenceError,
>)
    ensures
        r == influence_check(n_nodes as nat, n_elements as nat, n_supports as nat),
        r is Ok <==> n_nodes >= 2 && n_elements >= 1 && n_supports >= 1,
        r == Err::<(), InfluenceError>(InfluenceError::TooFewNodes) <==> n_nodes < 2,
        r == Err::<(), InfluenceError>(InfluenceError::NoElements) <==> n_nodes >= 2 && n_elements == 0,
        n_nodes >= 2 && n_elements >= 1 ==> (r == Err::<(), InfluenceError>(InfluenceError::NoSupports)
            <==> n_supports == 0),
{
    if n_nodes < 2 {
        return Err(InfluenceError::TooFewNodes);
    }
    if n_elements == 0 {
        return Err(InfluenceError::NoElements);
    }
    if n_supports == 0 {
        return Err(InfluenceError::NoSupports);
    }
    Ok(())
}

/// The response quantity an influence line follows.
#[derive(Clone, Copy, Debug, PartialEq, Eq)]
pub enum Quantity {
    /// Vertical reaction at a node.
    Ry,
    /// Horizontal reaction at a node.
    Rx,
    /// Reaction moment at a node.
    Mz,
    /// Shear at a point of an element.
    V,
    /// Bending moment at a point of an element.
    M,
    /// Any other name: the line is zero everywhere.
    Other,
}

/// The quantity a name selects.
pub open spec fn quantity_named(name: Seq<char>) -> Quantity {
    if name == "Ry"@ {
        Quantity::Ry
    } else if name == "Rx"@ {
        Quantity::Rx
    } else if name == "Mz"@ {
        Quantity::Mz
    } else if name == "V"@ {
        Quantity::V
    } else if name == "M"@ {
        Quantity::M
    } else {
        Quantity::Other
    }
}

/// Reads the quantity name of an influence line request.
pub fn parse_quantity(name: &str) -> (q: Quantity)
    ensures
        q == quantity_named(name@),
{
    if same_text(name, "Ry") {
        Quantity::Ry
    } else if same_text(name, "Rx") {
        Quantity::Rx
    } else if same_text(name, "Mz") {
        Quantity::Mz
    } else if same_text(name, "V") {
        Quantity::V
    } else if same_text(name, "M") {
        Quantity::M
    } else {
        Quantity::Other
    }
}

/// A component of a support reaction.
#[derive(Clone, Copy, Debug, PartialEq, Eq)]
pub enum ReactionComponent {
    Rx,
    Ry,
    Mz,
}

/// An internal-force diagram of an element.
#[derive(Clone, Copy, Debug, PartialEq, Eq)]
pub enum DiagramKind {
    Shear,
    Moment,
}

/// Where the value of an influence line point is read from the analysis
/// results of one unit-load position.
#[derive(Clone, Copy, Debug, PartialEq, Eq)]
pub enum ValueSource {
    /// The value is 0.
    Zero,
    /// A component of the reaction at position `index` of the reactions.
    Reaction { index: usize, component: ReactionComponent },
    /// The diagram of the element forces at position `index`, evaluated at the
    /// target position.
    Diagram { index: usize, kind: DiagramKind },
}

/// `k` is the first position of `x` in `s`.
pub open spec fn is_first_index(s: Seq<usize>, x: usize, k: int) -> bool {
    &&& 0 <= k < s.len()
    &&& s[k] == x
    &&& forall|j: int| 0 <= j < k ==> s[j] != x
}

/// The first position of `x` in `s` (meaningful when `s` contains `x`).
pub open spec fn first_index(s: Seq<usize>, x: usize) -> int {
    choose|k: int| is_first_index(s, x, k)
}

/// The first position of `x` is unique, so `first_index` names it.
pub proof fn lemma_first_index(s: Seq<usize>, x: usize, k: int)
    requires
        is_first_index(s, x, k),
    ensures
        first_index(s, x) == k,
{
    let c = first_index(s, x);
    assert(is_first_index(s, x, c));
    if c < k {
        assert(s[c] != x);
    }
    if k < c {
        assert(s[k] != x);
    }
}

fn position_of(s: &Vec<usize>, x: usize) -> (r: Option<usize>)
    ensures
        match r {
            Some(k) => is_first_index(s@, x, k as int),
            None => !s@.contains(x),
        },
{
    let mut k: usize = 0;
    while k < s.len()
        invariant
            k <= s.len(),
            forall|j: int| 0 <= j < k ==> s@[j] != x,
        decreases s.len() - k,
    {
        if s[k] == x {
            return Some(k);
        }
        k += 1;
    }
    None
}

/// The reaction of the first reaction entry for node `node_id`, or zero.
pub open spec fn reaction_source(
    reaction_node_ids: Seq<usize>,
    node_id: Option<usize>,
    component: ReactionComponent,
) -> ValueSource {
    match node_id {
        Some(id) => if reaction_node_ids.contains(id) {
            ValueSource::Reaction { index: first_index(reaction_node_ids, id) as usize, component }
        } else {
            ValueSource::Zero
        },
        None => ValueSource::Zero,
    }
}

/// The diagram of the first force entry for element `element_id`, or zero.
pub open spec fn diagram_source(
    force_element_ids: Seq<usize>,
    element_id: Option<usize>,
    kind: DiagramKind,
) -> ValueSource {
    match element_id {
        Some(id) => if force_element_ids.contains(id) {
            ValueSource::Diagram { index: first_index(force_element_ids, id) as usize, kind }
        } else {
            ValueSource::Zero
        },
        None => ValueSource::Zero,
    }
}

/// Where the followed quantity is read from one set of results.
pub open spec fn value_source_of(
    quantity: Quantity,
    target_node_id: Option<usize>,
    target_element_id: Option<usize>,
    reaction_node_ids: Seq<usize>,
    force_element_ids: Seq<usize>,
) -> ValueSource {
    match quantity {
        Quantity::Ry => reaction_source(reaction_node_ids, target_node_id, ReactionComponent::Ry),
        Quantity::Rx => reaction_source(reaction_node_ids, target_node_id, ReactionComponent::Rx),
        Quantity::Mz => reaction_source(reaction_node_ids, target_node_id, ReactionComponent::Mz),
        Quantity::V => diagram_source(force_element_ids, target_element_id, DiagramKind::Shear),
        Quantity::M => diagram_source(force_element_ids, target_element_id, DiagramKind::Moment),
        Quantity::Other => ValueSource::Zero,
    }
}

/// A value source always names an entry of the results that belongs to the
/// target: the first reaction of the target node, or the first element-force
/// entry of the target element; it reads the component or diagram that the
/// quantity names; it reads something whenever the target has an entry of
/// the kind the quantity needs, and nothing for an unknown quantity.
pub proof fn lemma_value_source_reads_target(
    quantity: Quantity,
    target_node_id: Option<usize>,
    target_element_id: Option<usize>,
    reaction_node_ids: Seq<usize>,
    force_element_ids: Seq<usize>,
)
    requires
        reaction_node_ids.len() <= usize::MAX,
        force_element_ids.len() <= usize::MAX,
    ensures
        ({
            let src = value_source_of(
                quantity,
                target_node_id,
                target_element_id,
                reaction_node_ids,
                force_element_ids,
            );
            &&& src matches ValueSource::Reaction { index, .. } ==> {
                &&& index < reaction_node_ids.len()
                &&& target_node_id == Some(reaction_node_ids[index as int])
                &&& forall|j: int| 0 <= j < index ==> Some(reaction_node_ids[j]) != target_node_id
            }
            &&& src matches ValueSource::Diagram { index, .. } ==> {
                &&& index < force_element_ids.len()
                &&& target_element_id == Some(force_element_ids[index as int])
                &&& forall|j: int| 0 <= j < index ==> Some(force_element_ids[j]) != target_element_id
            }
            &&& src matches ValueSource::Reaction { component, .. } ==> match component {
                ReactionComponent::Ry => quantity == Quantity::Ry,
                ReactionComponent::Rx => quantity == Quantity::Rx,
                ReactionComponent::Mz => quantity == Quantity::Mz,
            }
            &&& src matches ValueSource::Diagram { kind, .. } ==> match kind {
                DiagramKind::Shear => quantity == Quantity::V,
                DiagramKind::Moment => quantity == Quantity::M,
            }
            &&& (quantity == Quantity::Other ==> src == ValueSource::Zero)
            &&& (target_node_id is Some && reaction_node_ids.contains(target_node_id->0) && (
            quantity == Quantity::Ry || quantity == Quantity::Rx || quantity == Quantity::Mz))
                ==> src is Reaction
            &&& (target_element_id is Some && force_element_ids.contains(target_element_id->0) && (
            quantity == Quantity::V || quantity == Quantity::M)) ==> src is Diagram
        }),
{
    if let Some(id) = target_node_id {
        if reaction_node_ids.contains(id) {
            let k = choose|k: int| 0 <= k < reaction_node_ids.len() && reaction_node_ids[k] == id;
            let f = first_match(reaction_node_ids, |v: usize| v == id, k);
            lemma_first_index(reaction_node_ids, id, f);
        }
    }
    if let Some(id) = target_element_id {
        if force_element_ids.contains(id) {
            let k = choose|k: int| 0 <= k < force_element_ids.len() && force_element_ids[k] == id;
            let f = first_match(force_element_ids, |v: usize| v == id, k);
            lemma_first_index(force_element_ids, id, f);
        }
    }
}

/// Decides where the value of an influence line point comes from, given the
/// node ids of the reactions and the element ids of the element forces of
/// one analysis: reactions for "Ry", "Rx" and "Mz" at the target node, the
/// shear or moment diagram for "V" and "M" of the target element, and zero
/// when the quantity is unknown, no target is set, or the target has no entry.
pub fn value_source(
    quantity: &str,
    target_node_id: Option<usize>,
    target_element_id: Option<usize>,
    reaction_node_ids: &Vec<usize>,
    force_element_ids: &Vec<usize>,
) -> (src: ValueSource)
    ensures
        src == value_source_of(
            quantity_named(quantity@),
            target_node_id,
            target_element_id,
            reaction_node_ids@,
            force_element_ids@,
        ),
{
    let q = parse_quantity(quantity);
    match q {
        Quantity::Ry | Quantity::Rx | Quantity::Mz => {
            let component = match q {
                Quantity::Ry => ReactionComponent::Ry,
                Quantity::Rx => ReactionComponent::Rx,
                _ => ReactionComponent::Mz,
            };
            match target_node_id {
                Some(id) => match position_of(reaction_node_ids, id) {
                    Some(k) => {
                        proof {
                            lemma_first_index(reaction_node_ids@, id, k as int);
                        }
                        ValueSource::Reaction { index: k, component }
                    },
                    None => ValueSource::Zero,
                },
                None => ValueSource::Zero,
            }
        },
        Quantity::V | Quantity::M => {
            let kind = match q {
                Quantity::V => DiagramKind::Shear,
                _ => DiagramKind::Moment,
            };
            match target_element_id {
                Some(id) => match position_of(force_element_ids, id) {
                    Some(k) => {
                        proof {
                            lemma_first_index(force_element_ids@, id, k as int);
                        }
                        ValueSource::Diagram { index: k, kind }
                    },
                    None => ValueSource::Zero,
                },
                None => ValueSource::Zero,
            }
        },
        Quantity::Other => ValueSource::Zero,
    }
}

} // verus!
