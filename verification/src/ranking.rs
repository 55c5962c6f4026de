//! Lexicographic ranking of candidates by integer keys: the "last maximum" that
//! `Iterator::max_by` returns, the "first minimum" that `Iterator::min_by`
//! returns, and the stable order that `slice::sort_by` produces.
use vstd::prelude::*;

verus! {

/// Lexicographic comparison of two keys: `-1`, `0` or `1`.
pub open spec fn lex_sign(a: Seq<i128>, b: Seq<i128>) -> int
    decreases a.len(),
{
    if a.len() == 0 || b.len() == 0 {
        0
    } else if a[0] < b[0] {
        -1
    } else if a[0] > b[0] {
        1
    } else {
        lex_sign(a.drop_first(), b.drop_first())
    }
}

/// Every key compares equal to itself.
pub proof fn lemma_lex_refl(a: Seq<i128>)
    ensures
        lex_sign(a, a) == 0,
    decreases a.len(),
{
    if a.len() > 0 {
        lemma_lex_refl(a.drop_first());
    }
}

/// Swapping the arguments negates the comparison.
pub proof fn lemma_lex_antisym(a: Seq<i128>, b: Seq<i128>)
    ensures
        lex_sign(a, b) == -lex_sign(b, a),
        -1 <= lex_sign(a, b) <= 1,
    decreases a.len(),
{
    if a.len() > 0 && b.len() > 0 && a[0] == b[0] {
        lemma_lex_antisym(a.drop_first(), b.drop_first());
    }
}

/// The comparison is transitive on keys of one length.
pub proof fn lemma_lex_trans(a: Seq<i128>, b: Seq<i128>, c: Seq<i128>)
    requires
        a.len() == b.len(),
        b.len() == c.len(),
    ensures
        lex_sign(a, b) <= 0 && lex_sign(b, c) <= 0 ==> lex_sign(a, c) <= 0,
        lex_sign(a, b) < 0 && lex_sign(b, c) <= 0 ==> lex_sign(a, c) < 0,
        lex_sign(a, b) <= 0 && lex_sign(b, c) < 0 ==> lex_sign(a, c) < 0,
        lex_sign(a, b) == 0 && lex_sign(b, c) == 0 ==> lex_sign(a, c) == 0,
    decreases a.len(),
{
    if a.len() > 0 && a[0] == b[0] && b[0] == c[0] {
        lemma_lex_trans(a.drop_first(), b.drop_first(), c.drop_first());
    }
}

/// The keys of a table of key vectors.
pub open spec fn key_table(keys: Seq<Vec<i128>>) -> Seq<Seq<i128>> {
    keys.map_values(|k: Vec<i128>| k@)
}

/// Every key of the table has length `n`.
pub open spec fn uniform(keys: Seq<Seq<i128>>, n: nat) -> bool {
    forall|i: int| 0 <= i < keys.len() ==> (#[trigger] keys[i]).len() == n
}

/// The comparison of the keys at positions `i` and `j`.
pub open spec fn sign_at(keys: Seq<Seq<i128>>, i: int, j: int) -> int {
    lex_sign(keys[i], keys[j])
}

/// `i` is the last selected position whose key is maximal among the selected
/// ones: what `max_by` over the selected items, in order, returns.
pub open spec fn is_last_max(keys: Seq<Seq<i128>>, sel: Seq<bool>, i: int) -> bool {
    &&& 0 <= i < sel.len()
    &&& sel[i]
    &&& forall|j: int|
        0 <= j < sel.len() && #[trigger] sel[j] ==> sign_at(keys, j, i) <= 0 && (j > i ==> sign_at(
            keys,
            j,
            i,
        ) < 0)
}

/// `i` is the first selected position whose key is minimal among the selected
/// ones: what `min_by` over the selected items, in order, returns.
pub open spec fn is_first_min(keys: Seq<Seq<i128>>, sel: Seq<bool>, i: int) -> bool {
    &&& 0 <= i < sel.len()
    &&& sel[i]
    &&& forall|j: int|
        0 <= j < sel.len() && #[trigger] sel[j] ==> sign_at(keys, j, i) >= 0 && (j < i ==> sign_at(
            keys,
            j,
            i,
        ) > 0)
}

/// Whether some position is selected.
pub open spec fn any_selected(sel: Seq<bool>) -> bool {
    exists|j: int| 0 <= j < sel.len() && #[trigger] sel[j]
}

/// Lexicographic comparison of two keys.
pub fn lex_compare(a: &Vec<i128>, b: &Vec<i128>) -> (r: i8)
    ensures
        r == lex_sign(a@, b@),
{
    let n = if a.len() < b.len() {
        a.len()
    } else {
        b.len()
    };
    let mut i: usize = 0;
    assert(a@.skip(0) =~= a@);
    assert(b@.skip(0) =~= b@);
    while i < n
        invariant
            n <= a.len(),
            n <= b.len(),
            n == a.len() || n == b.len(),
            i <= n,
            forall|k: int| 0 <= k < i ==> a@[k] == b@[k],
            lex_sign(a@, b@) == lex_sign(a@.skip(i as int), b@.skip(i as int)),
        decreases n - i,
    {
        assert(a@.skip(i as int).drop_first() =~= a@.skip(i + 1));
        assert(b@.skip(i as int).drop_first() =~= b@.skip(i + 1));
        if a[i] < b[i] {
            return -1;
        } else if a[i] > b[i] {
            return 1;
        }
        i = i + 1;
    }
    0
}

/// Position of the last maximal selected key, `None` when nothing is selected.
pub fn argmax_last(keys: &Vec<Vec<i128>>, sel: &Vec<bool>, Ghost(n): Ghost<nat>) -> (r: Option<usize>)
    requires
        keys.len() == sel.len(),
        uniform(key_table(keys@), n),
    ensures
        r is None <==> !any_selected(sel@),
        r matches Some(i) ==> is_last_max(key_table(keys@), sel@, i as int),
{
    let mut best: Option<usize> = None;
    let mut j: usize = 0;
    while j < sel.len()
        invariant
            keys.len() == sel.len(),
            uniform(key_table(keys@), n),
            j <= sel.len(),
            best is None <==> (forall|k: int| 0 <= k < j ==> !#[trigger] sel@[k]),
            best matches Some(b) ==> b < j && is_last_max(key_table(keys@), sel@.take(j as int), b as int),
        decreases sel.len() - j,
    {
        if sel[j] {
            match best {
                None => {
                    best = Some(j);
                    proof {
                        lemma_lex_refl(key_table(keys@)[j as int]);
                    }
                },
                Some(b) => {
                    let c = lex_compare(&keys[b], &keys[j]);
                    if c > 0 {
                    } else {
                        best = Some(j);
                        proof {
                            lemma_lex_refl(key_table(keys@)[j as int]);
                            assert forall|k: int|
                                0 <= k < j + 1 && #[trigger] sel@.take(j + 1)[k] implies sign_at(
                                key_table(keys@),
                                k,
                                j as int,
                            ) <= 0 && (k > j ==> sign_at(key_table(keys@), k, j as int) < 0) by {
                                if k < j {
                                    assert(sel@.take(j as int)[k]);
                                    lemma_lex_antisym(key_table(keys@)[b as int], key_table(keys@)[j as int]);
                                    lemma_lex_trans(key_table(keys@)[k], key_table(keys@)[b as int], key_table(keys@)[j as int]);
                                }
                            }
                        }
                    }
                    proof {
                        lemma_lex_antisym(key_table(keys@)[b as int], key_table(keys@)[j as int]);
                    }
                },
            }
        }
        proof {
            assert forall|k: int| 0 <= k < j implies sel@.take(j as int)[k] == sel@.take(j + 1)[k] by {}
        }
        j = j + 1;
    }
    proof {
        assert(sel@.take(sel.len() as int) =~= sel@);
    }
    best
}

/// Position of the first minimal selected key, `None` when nothing is selected.
pub fn argmin_first(keys: &Vec<Vec<i128>>, sel: &Vec<bool>, Ghost(n): Ghost<nat>) -> (r: Option<usize>)
    requires
        keys.len() == sel.len(),
        uniform(key_table(keys@), n),
    ensures
        r is None <==> !any_selected(sel@),
        r matches Some(i) ==> is_first_min(key_table(keys@), sel@, i as int),
{
    let mut best: Option<usize> = None;
    let mut j: usize = 0;
    while j < sel.len()
        invariant
            keys.len() == sel.len(),
            uniform(key_table(keys@), n),
            j <= sel.len(),
            best is None <==> (forall|k: int| 0 <= k < j ==> !#[trigger] sel@[k]),
            best matches Some(b) ==> b < j && is_first_min(key_table(keys@), sel@.take(j as int), b as int),
        decreases sel.len() - j,
    {
        if sel[j] {
            match best {
                None => {
                    best = Some(j);
                    proof {
                        lemma_lex_refl(key_table(keys@)[j as int]);
                    }
                },
                Some(b) => {
                    let c = lex_compare(&keys[b], &keys[j]);
                    if c > 0 {
                        best = Some(j);
                        proof {
                            lemma_lex_refl(key_table(keys@)[j as int]);
                            assert forall|k: int|
                                0 <= k < j + 1 && #[trigger] sel@.take(j + 1)[k] implies sign_at(
                                key_table(keys@),
                                k,
                                j as int,
                            ) >= 0 && (k < j ==> sign_at(key_table(keys@), k, j as int) > 0) by {
                                if k < j {
                                    assert(sel@.take(j as int)[k]);
                                    lemma_lex_antisym(key_table(keys@)[b as int], key_table(keys@)[j as int]);
                                    lemma_lex_antisym(key_table(keys@)[k], key_table(keys@)[b as int]);
                                    lemma_lex_antisym(key_table(keys@)[k], key_table(keys@)[j as int]);
                                    lemma_lex_trans(key_table(keys@)[j as int], key_table(keys@)[b as int], key_table(keys@)[k]);
                                }
                            }
                        }
                    }
                    proof {
                        lemma_lex_antisym(key_table(keys@)[b as int], key_table(keys@)[j as int]);
                    }
                },
            }
        }
        proof {
            assert forall|k: int| 0 <= k < j implies sel@.take(j as int)[k] == sel@.take(j + 1)[k] by {}
        }
        j = j + 1;
    }
    proof {
        assert(sel@.take(sel.len() as int) =~= sel@);
    }
    best
}

/// Position `i` comes before position `j` in the stable order: its key is
/// smaller, or the keys are equal and `i` comes first.
pub open spec fn precedes(keys: Seq<Seq<i128>>, i: int, j: int) -> bool {
    sign_at(keys, i, j) < 0 || (sign_at(keys, i, j) == 0 && i < j)
}

/// `order` lists exactly the selected positions, in ascending key order, equal
/// keys in their original order: the result of a stable sort of the selected
/// items by key.
pub open spec fn is_stable_order(keys: Seq<Seq<i128>>, sel: Seq<bool>, order: Seq<usize>) -> bool {
    &&& forall|p: int| 0 <= p < order.len() ==> #[trigger] order[p] < sel.len() && sel[order[p] as int]
    &&& forall|i: int| 0 <= i < sel.len() && #[trigger] sel[i] ==> order.contains(i as usize)
    &&& forall|p: int, q: int|
        0 <= p < q < order.len() ==> precedes(keys, #[trigger] order[p] as int, #[trigger] order[q] as int)
}

/// The selected positions, stably sorted by ascending key (insertion sort).
pub fn stable_order(keys: &Vec<Vec<i128>>, sel: &Vec<bool>, Ghost(n): Ghost<nat>) -> (r: Vec<usize>)
    requires
        keys.len() == sel.len(),
        uniform(key_table(keys@), n),
    ensures
        is_stable_order(key_table(keys@), sel@, r@),
{
    let mut order: Vec<usize> = Vec::new();
    let mut j: usize = 0;
    while j < sel.len()
        invariant
            keys.len() == sel.len(),
            uniform(key_table(keys@), n),
            j <= sel.len(),
            forall|p: int| 0 <= p < order.len() ==> #[trigger] order@[p] < j && sel@[order@[p] as int],
            forall|i: int| 0 <= i < j && #[trigger] sel@[i] ==> order@.contains(i as usize),
            forall|p: int, q: int|
                0 <= p < q < order.len() ==> precedes(key_table(keys@), #[trigger] order@[p] as int, #[trigger] order@[q] as int),
        decreases sel.len() - j,
    {
        if sel[j] {
            let mut pos: usize = 0;
            while pos < order.len()
                invariant
                    keys.len() == sel.len(),
                    uniform(key_table(keys@), n),
                    j < sel.len(),
                    pos <= order.len(),
                    forall|p: int| 0 <= p < order.len() ==> #[trigger] order@[p] < j,
                    forall|q: int| 0 <= q < pos ==> sign_at(key_table(keys@), j as int, #[trigger] order@[q] as int) >= 0,
                ensures
                    pos <= order.len(),
                    forall|q: int| 0 <= q < pos ==> sign_at(key_table(keys@), j as int, #[trigger] order@[q] as int) >= 0,
                    pos < order.len() ==> sign_at(key_table(keys@), j as int, order@[pos as int] as int) < 0,
                decreases order.len() - pos,
            {
                let c = lex_compare(&keys[j], &keys[order[pos]]);
                if c < 0 {
                    break;
                }
                pos = pos + 1;
            }
            let ghost old_order = order@;
            proof {
                assert(pos < old_order.len() ==> sign_at(key_table(keys@), j as int, old_order[pos as int] as int) < 0);
            }
            order.insert(pos, j);
            proof {
                assert forall|p: int, q: int|
                    0 <= p < q < order.len() implies precedes(key_table(keys@), #[trigger] order@[p] as int, #[trigger] order@[q] as int) by {
                    let a = order@[p] as int;
                    let b = order@[q] as int;
                    if q < pos {
                        assert(order@[p] == old_order[p]);
                        assert(order@[q] == old_order[q]);
                    } else if q == pos {
                        assert(order@[p] == old_order[p]);
                        assert(sign_at(key_table(keys@), j as int, a) >= 0);
                        lemma_lex_antisym(key_table(keys@)[j as int], key_table(keys@)[a]);
                    } else if p == pos {
                        assert(order@[q] == old_order[q - 1]);
                        let first = old_order[pos as int] as int;
                        if q - 1 > pos {
                            assert(precedes(key_table(keys@), old_order[pos as int] as int, old_order[q - 1] as int));
                        } else {
                            lemma_lex_refl(key_table(keys@)[first]);
                        }
                        lemma_lex_trans(key_table(keys@)[j as int], key_table(keys@)[first], key_table(keys@)[b]);
                    } else if p < pos {
                        assert(order@[p] == old_order[p]);
                        assert(order@[q] == old_order[q - 1]);
                    } else {
                        assert(order@[p] == old_order[p - 1]);
                        assert(order@[q] == old_order[q - 1]);
                    }
                }
                assert forall|i: int| 0 <= i < j + 1 && #[trigger] sel@[i] implies order@.contains(i as usize) by {
                    if i == j {
                        assert(order@[pos as int] == j);
                    } else {
                        assert(old_order.contains(i as usize));
                        let k = choose|k: int| 0 <= k < old_order.len() && old_order[k] == i as usize;
                        if k < pos {
                            assert(order@[k] == i as usize);
                        } else {
                            assert(order@[k + 1] == i as usize);
                        }
                    }
                }
                assert forall|p: int| 0 <= p < order.len() implies #[trigger] order@[p] < j + 1 && sel@[order@[p] as int] by {
                    if p < pos {
                        assert(order@[p] == old_order[p]);
                    } else if p > pos {
                        assert(order@[p] == old_order[p - 1]);
                    }
                }
            }
        }
        j = j + 1;
    }
    order
}

} // verus!
