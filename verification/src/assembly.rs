use vstd::prelude::*;

verus! {

/// Position of entry (row, col) of an n×n matrix stored row-major.
pub open spec fn flat(row: int, col: int, n: int) -> int {
    row * n + col
}

proof fn lemma_flat_bounds(row: int, col: int, n: int)
    by (nonlinear_arith)
    requires
        0 <= row < n,
        0 <= col < n,
    ensures
        0 <= flat(row, col, n) < n * n,
{
}

proof fn lemma_flat_step(row: int, col: int, n: int)
    by (nonlinear_arith)
    requires
        0 <= row,
        0 <= col,
        0 < n,
    ensures
        flat(row, col, n) + 1 == flat(row, col + 1, n),
        flat(row, n, n) == flat(row + 1, 0, n),
        row < n ==> flat(row, 0, n) + n <= n * n,
{
}

proof fn lemma_flat_order(a: int, b: int, i: int, k: int)
    by (nonlinear_arith)
    requires
        0 <= a < i,
        0 <= b < k,
    ensures
        flat(a, b, k) < flat(i, 0, k),
{
}

/// Where each entry of an element matrix goes when it is added into the
/// global matrix: entry (i, j) of the k×k element matrix (k = `dofs.len()`,
/// row-major) is added to entry (`dofs[i]`, `dofs[j]`) of the n×n global
/// matrix (row-major), so `targets[i·k + j] == dofs[i]·n + dofs[j]`.
pub fn assembly_targets(dofs: &Vec<usize>, n: usize) -> (targets: Vec<usize>)
    requires
        forall|i: int| 0 <= i < dofs.len() ==> dofs@[i] < n,
        n * n <= usize::MAX,
        dofs.len() * dofs.len() <= usize::MAX,
    ensures
        targets.len() == dofs.len() * dofs.len(),
        forall|i: int, j: int|
            0 <= i < dofs.len() && 0 <= j < dofs.len() ==> #[trigger] targets@[flat(i, j, dofs.len() as int)]
                == flat(dofs@[i] as int, dofs@[j] as int, n as int),
        forall|q: int| 0 <= q < targets.len() ==> targets@[q] < n * n,
{
    let k = dofs.len();
    let mut targets: Vec<usize> = Vec::new();
    let mut i: usize = 0;
    while i < k
        invariant
            k == dofs.len(),
            i <= k,
            forall|a: int| 0 <= a < dofs.len() ==> dofs@[a] < n,
            n * n <= usize::MAX,
            k * k <= usize::MAX,
            targets.len() == flat(i as int, 0, k as int),
            forall|a: int, b: int|
                0 <= a < i && 0 <= b < k ==> #[trigger] targets@[flat(a, b, k as int)] == flat(
                    dofs@[a] as int,
                    dofs@[b] as int,
                    n as int,
                ),
            forall|q: int| 0 <= q < targets.len() ==> targets@[q] < n * n,
        decreases k - i,
    {
        let mut j: usize = 0;
        while j < k
            invariant
                k == dofs.len(),
                i < k,
                j <= k,
                forall|a: int| 0 <= a < dofs.len() ==> dofs@[a] < n,
                n * n <= usize::MAX,
                k * k <= usize::MAX,
                targets.len() == flat(i as int, j as int, k as int),
                forall|a: int, b: int|
                    0 <= a < i && 0 <= b < k ==> #[trigger] targets@[flat(a, b, k as int)] == flat(
                        dofs@[a] as int,
                        dofs@[b] as int,
                        n as int,
                    ),
                forall|b: int|
                    0 <= b < j ==> #[trigger] targets@[flat(i as int, b, k as int)] == flat(
                        dofs@[i as int] as int,
                        dofs@[b] as int,
                        n as int,
                    ),
                forall|q: int| 0 <= q < targets.len() ==> targets@[q] < n * n,
            decreases k - j,
        {
            proof {
                lemma_flat_bounds(dofs@[i as int] as int, dofs@[j as int] as int, n as int);
                lemma_flat_step(i as int, j as int, k as int);
            }
            let g = dofs[i] * n + dofs[j];
            let ghost before = targets@;
            targets.push(g);
            proof {
                assert forall|a: int, b: int| 0 <= a < i && 0 <= b < k implies #[trigger] targets@[flat(
                    a,
                    b,
                    k as int,
                )] == flat(dofs@[a] as int, dofs@[b] as int, n as int) by {
                    lemma_flat_order(a, b, i as int, k as int);
                    assert(targets@[flat(a, b, k as int)] == before[flat(a, b, k as int)]);
                }
            }
            j += 1;
        }
        proof {
            lemma_flat_step(i as int, k as int, k as int);
        }
        i += 1;
    }
    proof {
        assert(flat(k as int, 0, k as int) == k * k) by (nonlinear_arith)
            requires k >= 0;
    }
    targets
}

} // verus!
