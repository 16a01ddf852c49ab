use vstd::prelude::*;
use crate::sorting::{
    is_stable_order, stable_order, lemma_stable_order_unique, lemma_stable_order_exists,
    stable_sort_positions,
};
use crate::model::{
    ElementRef, NodeRef, has_node, node_index, find_node, lemma_node_index, has_element,
    element_index, find_element, lemma_element_index, first_match,
};

verus! {

/// The order key of the start node of each element.
pub open spec fn element_keys(elements: Seq<ElementRef>, nodes: Seq<NodeRef>) -> Seq<int> {
    Seq::new(elements.len(), |e: int| nodes[node_index(nodes, elements[e].node_i)].x_key as int)
}

/// The ids of the elements at the positions listed in `order`.
pub open spec fn ids_in_order(elements: Seq<ElementRef>, order: Seq<usize>) -> Seq<usize> {
    order.map_values(|i: usize| elements[i as int].id)
}

/// Orders the elements of a structure into a load path: element ids sorted by
/// the x coordinate of their start node, ties kept in input order. With fewer
/// than two elements nothing is compared and no node is read.
pub fn auto_detect_path(elements: &Vec<ElementRef>, nodes: &Vec<NodeRef>) -> (path: Vec<usize>)
    requires
        elements.len() >= 2 ==> forall|e: int|
            0 <= e < elements.len() ==> has_node(nodes@, #[trigger] elements@[e].node_i),
    ensures
        path@ == ids_in_order(elements@, stable_order(element_keys(elements@, nodes@))),
{
    let n = elements.len();
    let ghost spec_keys = element_keys(elements@, nodes@);
    if n < 2 {
        let mut path: Vec<usize> = Vec::new();
        if n == 1 {
            path.push(elements[0].id);
        }
        proof {
            let order: Seq<usize> = if n == 1 { seq![0usize] } else { Seq::empty() };
            if n == 1 {
                assert(order[0] == 0usize);
                assert(order.contains(0usize));
            }
            assert(is_stable_order(spec_keys, order));
            lemma_stable_order_unique(spec_keys, order, stable_order(spec_keys));
            assert(path@ =~= ids_in_order(elements@, order));
        }
        return path;
    }
    let mut keys: Vec<i128> = Vec::new();
    for e in 0..n
        invariant
            n == elements.len(),
            spec_keys == element_keys(elements@, nodes@),
            forall|f: int| 0 <= f < elements.len() ==> has_node(nodes@, #[trigger] elements@[f].node_i),
            keys.len() == e,
            forall|f: int| 0 <= f < e ==> keys@[f] as int == spec_keys[f],
    {
        let id = elements[e].node_i;
        let found = find_node(nodes, id);
        assert(has_node(nodes@, elements@[e as int].node_i));
        let k = found.unwrap();
        proof {
            lemma_node_index(nodes@, id, k as int);
        }
        keys.push(nodes[k].x_key as i128);
    }
    assert(keys@.map_values(|k: i128| k as int) =~= spec_keys);
    let order = stable_sort_positions(&keys);
    proof {
        lemma_stable_order_exists(spec_keys);
    }

    let mut path: Vec<usize> = Vec::new();
    for a in 0..n
        invariant
            n == elements.len(),
            n == order.len(),
            forall|b: int| 0 <= b < order.len() ==> order@[b] < n,
            path.len() == a,
            forall|b: int| 0 <= b < a ==> path@[b] == elements@[order@[b] as int].id,
    {
        path.push(elements[order[a]].id);
    }
    assert(path@ =~= ids_in_order(elements@, order@));
    path
}

/// The key of each element for the assembly order: its id.
pub open spec fn id_keys(elements: Seq<ElementRef>) -> Seq<int> {
    Seq::new(elements.len(), |e: int| elements[e].id as int)
}

/// The positions of the elements sorted by element id, ties kept in input
/// order: the order in which element matrices are assembled, so that the
/// result does not depend on the order of the input collection.
pub fn element_order_by_id(elements: &Vec<ElementRef>) -> (order: Vec<usize>)
    ensures
        order@ == stable_order(id_keys(elements@)),
{
    let n = elements.len();
    let mut keys: Vec<i128> = Vec::new();
    for e in 0..n
        invariant
            n == elements.len(),
            keys.len() == e,
            forall|f: int| 0 <= f < e ==> keys@[f] as int == elements@[f].id as int,
    {
        keys.push(elements[e].id as i128);
    }
    assert(keys@.map_values(|k: i128| k as int) =~= id_keys(elements@));
    stable_sort_positions(&keys)
}

/// One element of a load path, resolved against the structure: the element's
/// id and the positions of the element and of its two nodes in the input lists.
#[derive(Clone, Copy, Debug, PartialEq, Eq)]
pub struct PathLink {
    pub element_id: usize,
    pub element: usize,
    pub node_i: usize,
    pub node_j: usize,
}

/// Why no load path could be built.
#[derive(Clone, Copy, Debug, PartialEq, Eq)]
pub enum PathError {
    /// An element id of the requested path names no element.
    ElementNotFound(usize),
    /// The path holds no element.
    NoLoadPath,
}

/// The element ids that make up the path: those given, or else the
/// automatically detected order.
pub open spec fn path_ids(
    elements: Seq<ElementRef>,
    nodes: Seq<NodeRef>,
    given: Option<Seq<usize>>,
) -> Seq<usize> {
    match given {
        Some(ids) => ids,
        None => ids_in_order(elements, stable_order(element_keys(elements, nodes))),
    }
}

/// The link for element id `id`: the first element with that id and the first
/// nodes with its node ids.
pub open spec fn link_for(elements: Seq<ElementRef>, nodes: Seq<NodeRef>, id: usize) -> PathLink {
    let e = element_index(elements, id);
    PathLink {
        element_id: id,
        element: e as usize,
        node_i: node_index(nodes, elements[e].node_i) as usize,
        node_j: node_index(nodes, elements[e].node_j) as usize,
    }
}

/// `ids[k]` is the first id of `ids` that names no element.
pub open spec fn first_missing(elements: Seq<ElementRef>, ids: Seq<usize>, k: int) -> bool {
    &&& 0 <= k < ids.len()
    &&& !has_element(elements, ids[k])
    &&& forall|j: int| 0 <= j < k ==> has_element(elements, #[trigger] ids[j])
}

/// Every element reached before the first unknown id has both its nodes.
pub open spec fn given_path_nodes_present(
    elements: Seq<ElementRef>,
    nodes: Seq<NodeRef>,
    ids: Seq<usize>,
) -> bool {
    forall|k: int|
        #![trigger ids[k]]
        0 <= k < ids.len() && (forall|j: int| 0 <= j <= k ==> has_element(elements, #[trigger] ids[j]))
            ==> {
            &&& has_node(nodes, elements[element_index(elements, ids[k])].node_i)
            &&& has_node(nodes, elements[element_index(elements, ids[k])].node_j)
        }
}

/// Every start node is present, and so is the end node of the first element
/// with each id.
pub open spec fn all_path_nodes_present(elements: Seq<ElementRef>, nodes: Seq<NodeRef>) -> bool {
    forall|e: int|
        0 <= e < elements.len() ==> {
            &&& has_node(nodes, #[trigger] elements[e].node_i)
            &&& has_node(nodes, elements[element_index(elements, elements[e].id)].node_j)
        }
}

/// What building the load path gives on this input.
pub open spec fn load_path_result(
    elements: Seq<ElementRef>,
    nodes: Seq<NodeRef>,
    ids: Seq<usize>,
    r: Result<Vec<PathLink>, PathError>,
) -> bool {
    match r {
        Ok(links) => {
            &&& forall|k: int| 0 <= k < ids.len() ==> has_element(elements, #[trigger] ids[k])
            &&& links@ == ids.map_values(|id: usize| link_for(elements, nodes, id))
        },
        Err(PathError::ElementNotFound(id)) => exists|k: int|
            first_missing(elements, ids, k) && id == ids[k],
        Err(PathError::NoLoadPath) => false,
    }
}

fn resolve_path(elements: &Vec<ElementRef>, nodes: &Vec<NodeRef>, ids: &Vec<usize>) -> (r: Result<
    Vec<PathLink>,
    PathError,
>)
    requires
        given_path_nodes_present(elements@, nodes@, ids@),
    ensures
        load_path_result(elements@, nodes@, ids@, r),
{
    let mut links: Vec<PathLink> = Vec::new();
    for k in 0..ids.len()
        invariant
            given_path_nodes_present(elements@, nodes@, ids@),
            links.len() == k,
            forall|j: int| 0 <= j < k ==> has_element(elements@, #[trigger] ids@[j]),
            forall|j: int|
                0 <= j < k ==> links@[j] == link_for(elements@, nodes@, #[trigger] ids@[j]),
    {
        let id = ids[k];
        match find_element(elements, id) {
            None => {
                assert(first_missing(elements@, ids@, k as int));
                return Err(PathError::ElementNotFound(id));
            },
            Some(e) => {
                proof {
                    lemma_element_index(elements@, id, e as int);
                    assert(forall|j: int| 0 <= j <= k ==> has_element(elements@, #[trigger] ids@[j]));
                    assert(ids@[k as int] == id);
                }
                let ni = find_node(nodes, elements[e].node_i).unwrap();
                let nj = find_node(nodes, elements[e].node_j).unwrap();
                proof {
                    lemma_node_index(nodes@, elements@[e as int].node_i, ni as int);
                    lemma_node_index(nodes@, elements@[e as int].node_j, nj as int);
                }
                links.push(PathLink { element_id: id, element: e, node_i: ni, node_j: nj });
            },
        }
    }
    assert(links@ =~= ids@.map_values(|id: usize| link_for(elements@, nodes@, id)));
    Ok(links)
}

/// Resolves the elements of a load path: the given element ids in their
/// order, or, with none given, every element in `auto_detect_path` order.
/// Fails on the first given id that names no element.
pub fn build_load_path(
    elements: &Vec<ElementRef>,
    nodes: &Vec<NodeRef>,
    path_element_ids: Option<&Vec<usize>>,
) -> (r: Result<Vec<PathLink>, PathError>)
    requires
        match path_element_ids {
            Some(ids) => given_path_nodes_present(elements@, nodes@, ids@),
            None => all_path_nodes_present(elements@, nodes@),
        },
    ensures
        load_path_result(
            elements@,
            nodes@,
            path_ids(
                elements@,
                nodes@,
                match path_element_ids {
                    Some(ids) => Some(ids@),
                    None => None,
                },
            ),
            r,
        ),
{
    match path_element_ids {
        Some(ids) => resolve_path(elements, nodes, ids),
        None => {
            let ids = auto_detect_path(elements, nodes);
            proof {
                let keys = element_keys(elements@, nodes@);
                let order = stable_order(keys);
                assert forall|k: int|
                    #![trigger ids@[k]]
                    0 <= k < ids@.len() && (forall|j: int|
                        0 <= j <= k ==> has_element(elements@, #[trigger] ids@[j])) implies {
                    &&& has_node(nodes@, elements@[element_index(elements@, ids@[k])].node_i)
                    &&& has_node(nodes@, elements@[element_index(elements@, ids@[k])].node_j)
                } by {
                    assert(has_element(elements@, ids@[k]));
                    let w = choose|w: int| 0 <= w < elements@.len() && elements@[w].id == ids@[k];
                    let f = first_match(elements@, |x: ElementRef| x.id == ids@[k], w);
                    lemma_element_index(elements@, ids@[k], f);
                    assert(has_node(nodes@, elements@[f].node_i));
                    assert(elements@[element_index(elements@, elements@[f].id)].node_j == elements@[f].node_j);
                }
            }
            resolve_path(elements, nodes, &ids)
        },
    }
}

/// Every link of a built path points at the element it names and at that
/// element's two nodes, all within the input lists.
pub proof fn lemma_links_in_range(
    elements: Seq<ElementRef>,
    nodes: Seq<NodeRef>,
    ids: Seq<usize>,
    links: Seq<PathLink>,
)
    requires
        elements.len() <= usize::MAX,
        nodes.len() <= usize::MAX,
        forall|k: int| 0 <= k < ids.len() ==> has_element(elements, #[trigger] ids[k]),
        links == ids.map_values(|id: usize| link_for(elements, nodes, id)),
        forall|k: int|
            #![trigger ids[k]]
            0 <= k < ids.len() ==> {
                &&& has_node(nodes, elements[element_index(elements, ids[k])].node_i)
                &&& has_node(nodes, elements[element_index(elements, ids[k])].node_j)
            },
    ensures
        forall|k: int|
            #![trigger links[k]]
            0 <= k < links.len() ==> {
                &&& links[k].element < elements.len()
                &&& elements[links[k].element as int].id == links[k].element_id
                &&& links[k].element_id == ids[k]
                &&& links[k].node_i < nodes.len()
                &&& links[k].node_j < nodes.len()
                &&& nodes[links[k].node_i as int].id == elements[links[k].element as int].node_i
                &&& nodes[links[k].node_j as int].id == elements[links[k].element as int].node_j
            },
{
    assert forall|k: int| #![trigger links[k]] 0 <= k < links.len() implies {
        &&& links[k].element < elements.len()
        &&& elements[links[k].element as int].id == links[k].element_id
        &&& links[k].element_id == ids[k]
        &&& links[k].node_i < nodes.len()
        &&& links[k].node_j < nodes.len()
        &&& nodes[links[k].node_i as int].id == elements[links[k].element as int].node_i
        &&& nodes[links[k].node_j as int].id == elements[links[k].element as int].node_j
    } by {
        let id = ids[k];
        assert(links[k] == link_for(elements, nodes, id));
        assert(has_element(elements, id));
        assert(has_node(nodes, elements[element_index(elements, ids[k])].node_i));
        assert(has_node(nodes, elements[element_index(elements, ids[k])].node_j));
        let w = choose|w: int| 0 <= w < elements.len() && elements[w].id == id;
        let f = first_match(elements, |x: ElementRef| x.id == id, w);
        lemma_element_index(elements, id, f);
        let e = elements[f];
        let ni = choose|v: int| 0 <= v < nodes.len() && nodes[v].id == e.node_i;
        let fi = first_match(nodes, |x: NodeRef| x.id == e.node_i, ni);
        lemma_node_index(nodes, e.node_i, fi);
        let nj = choose|v: int| 0 <= v < nodes.len() && nodes[v].id == e.node_j;
        let fj = first_match(nodes, |x: NodeRef| x.id == e.node_j, nj);
        lemma_node_index(nodes, e.node_j, fj);
    }
}

/// The load path of a moving-load run: `build_load_path`, refused when the
/// path holds no element.
pub fn moving_load_path(
    elements: &Vec<ElementRef>,
    nodes: &Vec<NodeRef>,
    path_element_ids: Option<&Vec<usize>>,
) -> (r: Result<Vec<PathLink>, PathError>)
    requires
        match path_element_ids {
            Some(ids) => given_path_nodes_present(elements@, nodes@, ids@),
            None => all_path_nodes_present(elements@, nodes@),
        },
    ensures
        ({
            let ids = path_ids(
                elements@,
                nodes@,
                match path_element_ids {
                    Some(ids) => Some(ids@),
                    None => None,
                },
            );
            match r {
                Err(PathError::NoLoadPath) => ids.len() == 0,
                _ => load_path_result(elements@, nodes@, ids, r) && ids.len() > 0,
            }
        }),
{
    let links = build_load_path(elements, nodes, path_element_ids)?;
    if links.len() == 0 {
        return Err(PathError::NoLoadPath);
    }
    Ok(links)
}

} // verus!
