use vstd::prelude::*;
use vstd::string::*;

verus! {

/// A node as the lookup and path logic sees it: its id and an integer key
/// that orders nodes as their x coordinates do.
#[derive(Clone, Copy, Debug)]
pub struct NodeRef {
    pub id: usize,
    pub x_key: i64,
}

/// An element as the lookup and path logic sees it: its id and the ids of
/// its start and end nodes.
#[derive(Clone, Copy, Debug)]
pub struct ElementRef {
    pub id: usize,
    pub node_i: usize,
    pub node_j: usize,
}

/// Some node of `nodes` carries the id `id`.
pub open spec fn has_node(nodes: Seq<NodeRef>, id: usize) -> bool {
    exists|k: int| 0 <= k < nodes.len() && nodes[k].id == id
}

/// `k` is the position of the first node with id `id`.
pub open spec fn is_first_node(nodes: Seq<NodeRef>, id: usize, k: int) -> bool {
    &&& 0 <= k < nodes.len()
    &&& nodes[k].id == id
    &&& forall|j: int| 0 <= j < k ==> nodes[j].id != id
}

/// Position of the first node with id `id` (meaningful when `has_node`).
pub open spec fn node_index(nodes: Seq<NodeRef>, id: usize) -> int {
    choose|k: int| is_first_node(nodes, id, k)
}

/// Some element of `elements` carries the id `id`.
pub open spec fn has_element(elements: Seq<ElementRef>, id: usize) -> bool {
    exists|k: int| 0 <= k < elements.len() && elements[k].id == id
}

/// `k` is the position of the first element with id `id`.
pub open spec fn is_first_element(elements: Seq<ElementRef>, id: usize, k: int) -> bool {
    &&& 0 <= k < elements.len()
    &&& elements[k].id == id
    &&& forall|j: int| 0 <= j < k ==> elements[j].id != id
}

/// Position of the first element with id `id` (meaningful when `has_element`).
pub open spec fn element_index(elements: Seq<ElementRef>, id: usize) -> int {
    choose|k: int| is_first_element(elements, id, k)
}

/// The first node with a given id is unique, so `node_index` names it.
pub proof fn lemma_node_index(nodes: Seq<NodeRef>, id: usize, k: int)
    requires
        is_first_node(nodes, id, k),
    ensures
        node_index(nodes, id) == k,
{
    let c = node_index(nodes, id);
    assert(is_first_node(nodes, id, c));
    if c < k {
        assert(nodes[c].id != id);
    }
    if k < c {
        assert(nodes[k].id != id);
    }
}

/// The first element with a given id is unique, so `element_index` names it.
pub proof fn lemma_element_index(elements: Seq<ElementRef>, id: usize, k: int)
    requires
        is_first_element(elements, id, k),
    ensures
        element_index(elements, id) == k,
{
    let c = element_index(elements, id);
    assert(is_first_element(elements, id, c));
    if c < k {
        assert(elements[c].id != id);
    }
    if k < c {
        assert(elements[k].id != id);
    }
}

/// Where some entry of `s` satisfies `pred`, a first one does.
pub proof fn first_match<T>(s: Seq<T>, pred: spec_fn(T) -> bool, w: int) -> (f: int)
    requires
        0 <= w < s.len(),
        pred(s[w]),
    ensures
        0 <= f <= w,
        pred(s[f]),
        forall|j: int| 0 <= j < f ==> !pred(s[j]),
    decreases w,
{
    if exists|j: int| 0 <= j < w && pred(s[j]) {
        let j = choose|j: int| 0 <= j < w && pred(s[j]);
        first_match(s, pred, j)
    } else {
        w
    }
}

/// Finds the position of the first node with id `id`.
pub fn find_node(nodes: &Vec<NodeRef>, id: usize) -> (r: Option<usize>)
    ensures
        match r {
            Some(k) => is_first_node(nodes@, id, k as int),
            None => !has_node(nodes@, id),
        },
{
    let mut k: usize = 0;
    while k < nodes.len()
        invariant
            k <= nodes.len(),
            forall|j: int| 0 <= j < k ==> nodes@[j].id != id,
        decreases nodes.len() - k,
    {
        if nodes[k].id == id {
            return Some(k);
        }
        k += 1;
    }
    None
}

/// Finds the position of the first element with id `id`.
pub fn find_element(elements: &Vec<ElementRef>, id: usize) -> (r: Option<usize>)
    ensures
        match r {
            Some(k) => is_first_element(elements@, id, k as int),
            None => !has_element(elements@, id),
        },
{
    let mut k: usize = 0;
    while k < elements.len()
        invariant
            k <= elements.len(),
            forall|j: int| 0 <= j < k ==> elements@[j].id != id,
        decreases elements.len() - k,
    {
        if elements[k].id == id {
            return Some(k);
        }
        k += 1;
    }
    None
}

/// Whether two strings hold the same characters.
pub fn same_text(s: &str, t: &str) -> (b: bool)
    ensures
        b == (s@ == t@),
{
    let n = s.unicode_len();
    if n != t.unicode_len() {
        return false;
    }
    let mut k: usize = 0;
    while k < n
        invariant
            n == s@.len(),
            n == t@.len(),
            k <= n,
            forall|j: int| 0 <= j < k ==> s@[j] == t@[j],
        decreases n - k,
    {
        if s.get_char(k) != t.get_char(k) {
            return false;
        }
        k += 1;
    }
    assert(s@ =~= t@);
    true
}

/// Whether an element type names a truss (pin-ended bar) element.
pub fn is_truss(elem_type: &str) -> (b: bool)
    ensures
        b == (elem_type@ == "truss"@),
{
    same_text(elem_type, "truss")
}

} // verus!
