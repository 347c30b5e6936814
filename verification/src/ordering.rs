//! Playlist ordering: moving a selection one step while keeping blocks intact.

use vstd::prelude::*;

use crate::models::MoveDirection;

verus! {

broadcast use vstd::seq_lib::group_to_multiset_ensures;

/// `s` with the neighbours at `i` and `i + 1` exchanged.
pub open spec fn swap_adjacent(s: Seq<i64>, i: int) -> Seq<i64> {
    s.update(i, s[i + 1]).update(i + 1, s[i])
}

/// The order after the upward pass has visited positions `1 .. k`: at each
/// position a selected item directly below an unselected one trades places
/// with it, so a block of selected items rises past its upper neighbour.
pub open spec fn up_pass(s: Seq<i64>, sel: Set<i64>, k: nat) -> Seq<i64>
    decreases k,
{
    if k <= 1 {
        s
    } else {
        let t = up_pass(s, sel, (k - 1) as nat);
        if sel.contains(t[k - 1]) && !sel.contains(t[k - 2]) {
            swap_adjacent(t, k - 2)
        } else {
            t
        }
    }
}

/// The order after the downward pass has visited `m` positions, starting from
/// the next-to-last and walking towards the front: a selected item directly
/// above an unselected one trades places with it.
pub open spec fn down_pass(s: Seq<i64>, sel: Set<i64>, m: nat) -> Seq<i64>
    decreases m,
{
    if m == 0 {
        s
    } else {
        let t = down_pass(s, sel, (m - 1) as nat);
        let i = s.len() - 1 - m;
        if sel.contains(t[i]) && !sel.contains(t[i + 1]) {
            swap_adjacent(t, i)
        } else {
            t
        }
    }
}

/// The order of `s` after moving the items of `sel` one step in `dir`.
pub open spec fn spec_reorder(s: Seq<i64>, sel: Set<i64>, dir: MoveDirection) -> Seq<i64> {
    match dir {
        MoveDirection::Up => up_pass(s, sel, s.len()),
        MoveDirection::Down => if s.len() == 0 {
            s
        } else {
            down_pass(s, sel, (s.len() - 1) as nat)
        },
    }
}

/// The items to move: the explicit selection, or the cursor item when the
/// selection is empty.
pub open spec fn spec_selection_set(selection: Seq<i64>, cursor: Option<i64>) -> Set<i64> {
    if selection.len() == 0 {
        match cursor {
            Some(c) => set![c],
            None => Set::empty(),
        }
    } else {
        selection.to_set()
    }
}

/// Membership in `sel`, as a filter predicate.
pub open spec fn selected_in(sel: Set<i64>) -> spec_fn(i64) -> bool {
    |x: i64| sel.contains(x)
}

/// Non-membership in `sel`, as a filter predicate.
pub open spec fn unselected_in(sel: Set<i64>) -> spec_fn(i64) -> bool {
    |x: i64| !sel.contains(x)
}

proof fn lemma_swap_multiset(s: Seq<i64>, i: int)
    requires
        0 <= i,
        i + 1 < s.len(),
    ensures
        swap_adjacent(s, i).to_multiset() == s.to_multiset(),
        swap_adjacent(s, i).len() == s.len(),
{
    broadcast use vstd::multiset::group_multiset_axioms;
    broadcast use vstd::seq_lib::to_multiset_remove, vstd::seq_lib::to_multiset_insert;

    let r = s.remove(i + 1);
    assert(swap_adjacent(s, i) =~= r.insert(i, s[i + 1]));
    assert(r.to_multiset() == s.to_multiset().remove(s[i + 1]));
    assert(r.insert(i, s[i + 1]).to_multiset() == r.to_multiset().insert(s[i + 1]));
    assert(s.contains(s[i + 1]));
    assert(s.to_multiset().count(s[i + 1]) > 0);
    assert(s.to_multiset().remove(s[i + 1]).insert(s[i + 1]) =~= s.to_multiset());
}

proof fn lemma_pair_filter(x: i64, y: i64, p: spec_fn(i64) -> bool)
    requires
        p(x) != p(y),
    ensures
        seq![x, y].filter(p) == seq![y, x].filter(p),
{
    broadcast use Seq::lemma_filter_push;

    let e = Seq::<i64>::empty();
    assert(e.filter(p) =~= e) by {
        reveal(Seq::filter);
    }
    assert(seq![x, y] =~= e.push(x).push(y));
    assert(seq![y, x] =~= e.push(y).push(x));
    if p(x) {
        assert(seq![x, y].filter(p) =~= seq![x]);
        assert(seq![y, x].filter(p) =~= seq![x]);
    } else {
        assert(seq![x, y].filter(p) =~= seq![y]);
        assert(seq![y, x].filter(p) =~= seq![y]);
    }
}

proof fn lemma_swap_filter(s: Seq<i64>, i: int, p: spec_fn(i64) -> bool)
    requires
        0 <= i,
        i + 1 < s.len(),
        p(s[i]) != p(s[i + 1]),
    ensures
        swap_adjacent(s, i).filter(p) == s.filter(p),
{
    broadcast use Seq::filter_distributes_over_add;

    let a = s.take(i);
    let b = s.skip(i + 2);
    let x = s[i];
    let y = s[i + 1];
    assert(s =~= a + seq![x, y] + b);
    assert(swap_adjacent(s, i) =~= a + seq![y, x] + b);
    lemma_pair_filter(x, y, p);
    assert((a + seq![x, y] + b).filter(p) == (a + seq![x, y]).filter(p) + b.filter(p));
    assert((a + seq![y, x] + b).filter(p) == (a + seq![y, x]).filter(p) + b.filter(p));
    assert((a + seq![x, y]).filter(p) == a.filter(p) + seq![x, y].filter(p));
    assert((a + seq![y, x]).filter(p) == a.filter(p) + seq![y, x].filter(p));
}

proof fn lemma_swap_keeps(s: Seq<i64>, i: int, sel: Set<i64>)
    requires
        0 <= i,
        i + 1 < s.len(),
        sel.contains(s[i]) != sel.contains(s[i + 1]),
    ensures
        swap_adjacent(s, i).len() == s.len(),
        swap_adjacent(s, i).to_multiset() == s.to_multiset(),
        swap_adjacent(s, i).filter(selected_in(sel)) == s.filter(selected_in(sel)),
        swap_adjacent(s, i).filter(unselected_in(sel)) == s.filter(unselected_in(sel)),
{
    lemma_swap_multiset(s, i);
    lemma_swap_filter(s, i, selected_in(sel));
    lemma_swap_filter(s, i, unselected_in(sel));
}

proof fn lemma_up_pass_keeps(s: Seq<i64>, sel: Set<i64>, k: nat)
    requires
        k <= s.len(),
    ensures
        up_pass(s, sel, k).len() == s.len(),
        up_pass(s, sel, k).to_multiset() == s.to_multiset(),
        up_pass(s, sel, k).filter(selected_in(sel)) == s.filter(selected_in(sel)),
        up_pass(s, sel, k).filter(unselected_in(sel)) == s.filter(unselected_in(sel)),
    decreases k,
{
    if k > 1 {
        lemma_up_pass_keeps(s, sel, (k - 1) as nat);
        let t = up_pass(s, sel, (k - 1) as nat);
        if sel.contains(t[k - 1]) && !sel.contains(t[k - 2]) {
            lemma_swap_keeps(t, k - 2, sel);
        }
    }
}

proof fn lemma_down_pass_keeps(s: Seq<i64>, sel: Set<i64>, m: nat)
    requires
        m + 1 <= s.len(),
    ensures
        down_pass(s, sel, m).len() == s.len(),
        down_pass(s, sel, m).to_multiset() == s.to_multiset(),
        down_pass(s, sel, m).filter(selected_in(sel)) == s.filter(selected_in(sel)),
        down_pass(s, sel, m).filter(unselected_in(sel)) == s.filter(unselected_in(sel)),
    decreases m,
{
    if m > 0 {
        lemma_down_pass_keeps(s, sel, (m - 1) as nat);
        let t = down_pass(s, sel, (m - 1) as nat);
        let i = s.len() - 1 - m;
        if sel.contains(t[i]) && !sel.contains(t[i + 1]) {
            lemma_swap_keeps(t, i, sel);
        }
    }
}

/// Moving a selection reorders the playlist without adding, dropping or
/// duplicating items, and keeps the relative order of the selected items
/// among themselves and of the other items among themselves.
pub proof fn lemma_reorder_is_stable_permutation(s: Seq<i64>, sel: Set<i64>, dir: MoveDirection)
    ensures
        spec_reorder(s, sel, dir).len() == s.len(),
        spec_reorder(s, sel, dir).to_multiset() == s.to_multiset(),
        spec_reorder(s, sel, dir).filter(selected_in(sel)) == s.filter(selected_in(sel)),
        spec_reorder(s, sel, dir).filter(unselected_in(sel)) == s.filter(unselected_in(sel)),
{
    match dir {
        MoveDirection::Up => lemma_up_pass_keeps(s, sel, s.len()),
        MoveDirection::Down => {
            if s.len() > 0 {
                lemma_down_pass_keeps(s, sel, (s.len() - 1) as nat);
            }
        },
    }
}

proof fn lemma_up_pass_single(s: Seq<i64>, v: i64, i: int, k: nat)
    requires
        0 < i < s.len(),
        s[i] == v,
        forall|j: int| 0 <= j < s.len() && j != i ==> s[j] != v,
        k <= s.len(),
    ensures
        up_pass(s, set![v], k) == if k <= i { s } else { swap_adjacent(s, i - 1) },
    decreases k,
{
    if k > 1 {
        lemma_up_pass_single(s, v, i, (k - 1) as nat);
        if k - 1 > i {
            let t = swap_adjacent(s, i - 1);
            assert(t[k - 1] == s[k - 1]);
        }
    }
}

proof fn lemma_down_pass_single(s: Seq<i64>, v: i64, i: int, m: nat)
    requires
        0 <= i,
        i + 1 < s.len(),
        s[i] == v,
        forall|j: int| 0 <= j < s.len() && j != i ==> s[j] != v,
        m + 1 <= s.len(),
    ensures
        down_pass(s, set![v], m) == if s.len() - 1 - m <= i { swap_adjacent(s, i) } else { s },
    decreases m,
{
    if m > 0 {
        lemma_down_pass_single(s, v, i, (m - 1) as nat);
        let idx = s.len() - 1 - m;
        if idx < i {
            let t = swap_adjacent(s, i);
            assert(t[idx] == s[idx]);
        }
    }
}

/// Moving a single item up one step and then down one step restores the
/// playlist order (item ids are distinct; the item is not already first).
pub proof fn lemma_move_up_then_down_restores(s: Seq<i64>, i: int)
    requires
        s.no_duplicates(),
        0 < i < s.len(),
    ensures
        spec_reorder(spec_reorder(s, set![s[i]], MoveDirection::Up), set![s[i]], MoveDirection::Down)
            == s,
{
    let v = s[i];
    lemma_up_pass_single(s, v, i, s.len());
    let t = swap_adjacent(s, i - 1);
    assert(t[i - 1] == v);
    assert forall|j: int| 0 <= j < t.len() && j != i - 1 implies t[j] != v by {
        if j == i {
            assert(s[i - 1] != s[i]);
        }
    }
    lemma_down_pass_single(t, v, i - 1, (t.len() - 1) as nat);
    assert(swap_adjacent(t, i - 1) =~= s);
}

/// Moving a single item down one step and then up one step restores the
/// playlist order (item ids are distinct; the item is not already last).
pub proof fn lemma_move_down_then_up_restores(s: Seq<i64>, i: int)
    requires
        s.no_duplicates(),
        0 <= i,
        i + 1 < s.len(),
    ensures
        spec_reorder(spec_reorder(s, set![s[i]], MoveDirection::Down), set![s[i]], MoveDirection::Up)
            == s,
{
    let v = s[i];
    lemma_down_pass_single(s, v, i, (s.len() - 1) as nat);
    let t = swap_adjacent(s, i);
    assert(t[i + 1] == v);
    assert forall|j: int| 0 <= j < t.len() && j != i + 1 implies t[j] != v by {
        if j == i {
            assert(s[i + 1] != s[i]);
        }
    }
    lemma_up_pass_single(t, v, i + 1, t.len());
    assert(swap_adjacent(t, i) =~= s);
}

/// Where the run of selected items that reaches index `j` starts, looking
/// back from `j` (for a selected `j`; `j` itself otherwise).
pub open spec fn run_start(s: Seq<i64>, sel: Set<i64>, j: int) -> int
    decreases j,
{
    if j > 0 && sel.contains(s[j - 1]) { run_start(s, sel, j - 1) } else { j }
}

/// Where the run of selected items that reaches index `j` ends, looking
/// forward from `j` (for a selected `j`; `j` itself otherwise).
pub open spec fn run_end(s: Seq<i64>, sel: Set<i64>, j: int) -> int
    decreases s.len() - j,
{
    if 0 <= j && j + 1 < s.len() && sel.contains(s[j + 1]) { run_end(s, sel, j + 1) } else { j }
}

/// The item at index `p` once every run of selected items among the first
/// `k` that has an unselected item just before it has moved up one place as
/// a block, that item taking the run's last place (cut at `k`).
pub open spec fn raised_at(s: Seq<i64>, sel: Set<i64>, k: int, p: int) -> i64 {
    if p + 1 < k && sel.contains(s[p + 1]) && run_start(s, sel, p + 1) > 0 {
        s[p + 1]
    } else if sel.contains(s[p]) && run_start(s, sel, p) > 0 {
        s[run_start(s, sel, p) - 1]
    } else {
        s[p]
    }
}

/// The item at index `p` once every run of selected items from index `lo`
/// on that has an unselected item just after it has moved down one place as
/// a block, that item taking the run's first place.
pub open spec fn lowered_at(s: Seq<i64>, sel: Set<i64>, lo: int, p: int) -> i64 {
    if p - 1 >= lo && sel.contains(s[p - 1]) && run_end(s, sel, p - 1) < s.len() - 1 {
        s[p - 1]
    } else if sel.contains(s[p]) && run_end(s, sel, p) < s.len() - 1 {
        s[run_end(s, sel, p) + 1]
    } else {
        s[p]
    }
}

proof fn lemma_run_start_bounds(s: Seq<i64>, sel: Set<i64>, j: int)
    requires
        0 <= j < s.len(),
    ensures
        0 <= run_start(s, sel, j) <= j,
        run_start(s, sel, j) > 0 ==> !sel.contains(s[run_start(s, sel, j) - 1]),
    decreases j,
{
    if j > 0 && sel.contains(s[j - 1]) {
        lemma_run_start_bounds(s, sel, j - 1);
    }
}

proof fn lemma_run_end_bounds(s: Seq<i64>, sel: Set<i64>, j: int)
    requires
        0 <= j < s.len(),
    ensures
        j <= run_end(s, sel, j) < s.len(),
        run_end(s, sel, j) < s.len() - 1 ==> !sel.contains(s[run_end(s, sel, j) + 1]),
    decreases s.len() - j,
{
    if j + 1 < s.len() && sel.contains(s[j + 1]) {
        lemma_run_end_bounds(s, sel, j + 1);
    }
}

proof fn lemma_up_pass_raises(s: Seq<i64>, sel: Set<i64>, k: nat)
    requires
        1 <= k <= s.len(),
    ensures
        up_pass(s, sel, k).len() == s.len(),
        forall|p: int| 0 <= p < k ==> #[trigger] up_pass(s, sel, k)[p] == raised_at(s, sel, k as int, p),
        forall|p: int| k <= p < s.len() ==> #[trigger] up_pass(s, sel, k)[p] == s[p],
    decreases k,
{
    lemma_up_pass_keeps(s, sel, k);
    if k == 1 {
        assert(raised_at(s, sel, 1, 0) == s[0]);
    } else {
        let k1 = (k - 1) as nat;
        lemma_up_pass_raises(s, sel, k1);
        let t = up_pass(s, sel, k1);
        let q = k - 1;
        lemma_run_start_bounds(s, sel, q - 1);
        lemma_run_start_bounds(s, sel, q);
        assert(t[q] == s[q]);
        assert(t[q - 1] == raised_at(s, sel, q, q - 1));
        assert forall|p: int| 0 <= p < q - 1 implies raised_at(s, sel, k as int, p) == raised_at(s, sel, q, p) by {}
        let swapped = sel.contains(t[q]) && !sel.contains(t[q - 1]);
        if swapped {
            assert(run_start(s, sel, q) > 0);
            assert(raised_at(s, sel, k as int, q - 1) == s[q]);
            assert(raised_at(s, sel, k as int, q) == t[q - 1]);
        } else {
            assert(raised_at(s, sel, k as int, q - 1) == t[q - 1]);
            assert(raised_at(s, sel, k as int, q) == s[q]);
        }
        let u = up_pass(s, sel, k);
        assert forall|p: int| 0 <= p < k implies #[trigger] u[p] == raised_at(s, sel, k as int, p) by {
            if p < q - 1 {
                assert(u[p] == t[p]);
            }
        }
        assert forall|p: int| k <= p < s.len() implies #[trigger] u[p] == s[p] by {
            assert(u[p] == t[p]);
        }
    }
}

proof fn lemma_down_pass_lowers(s: Seq<i64>, sel: Set<i64>, m: nat)
    requires
        m + 1 <= s.len(),
    ensures
        down_pass(s, sel, m).len() == s.len(),
        forall|p: int| s.len() - 1 - m <= p < s.len() ==> #[trigger] down_pass(s, sel, m)[p] == lowered_at(
            s,
            sel,
            s.len() - 1 - m,
            p,
        ),
        forall|p: int| 0 <= p < s.len() - 1 - m ==> #[trigger] down_pass(s, sel, m)[p] == s[p],
    decreases m,
{
    lemma_down_pass_keeps(s, sel, m);
    let lo = s.len() - 1 - m;
    if m == 0 {
        lemma_run_end_bounds(s, sel, lo);
        assert(lowered_at(s, sel, lo, lo) == s[lo]);
    } else {
        let m1 = (m - 1) as nat;
        lemma_down_pass_lowers(s, sel, m1);
        let t = down_pass(s, sel, m1);
        let i = lo;
        lemma_run_end_bounds(s, sel, i);
        lemma_run_end_bounds(s, sel, i + 1);
        assert(t[i] == s[i]);
        assert(t[i + 1] == lowered_at(s, sel, i + 1, i + 1));
        assert forall|p: int| i + 1 < p < s.len() implies lowered_at(s, sel, i, p) == lowered_at(s, sel, i + 1, p) by {}
        let swapped = sel.contains(t[i]) && !sel.contains(t[i + 1]);
        if swapped {
            assert(run_end(s, sel, i) < s.len() - 1);
            assert(lowered_at(s, sel, i, i + 1) == s[i]);
            assert(lowered_at(s, sel, i, i) == t[i + 1]);
        } else {
            assert(lowered_at(s, sel, i, i + 1) == t[i + 1]);
            assert(lowered_at(s, sel, i, i) == s[i]);
        }
        let u = down_pass(s, sel, m);
        assert forall|p: int| i <= p < s.len() implies #[trigger] u[p] == lowered_at(s, sel, i, p) by {
            if p > i + 1 {
                assert(u[p] == t[p]);
            }
        }
        assert forall|p: int| 0 <= p < i implies #[trigger] u[p] == s[p] by {
            assert(u[p] == t[p]);
        }
    }
}

/// Moving a selection moves blocks: moving up, each maximal run of selected
/// items with an unselected item just before it rises one place as a block
/// and that item drops to the run's last place; moving down, each run with an
/// unselected item just after it sinks one place and that item rises to the
/// run's first place. Every other item stays where it is.
pub proof fn lemma_reorder_moves_blocks(s: Seq<i64>, sel: Set<i64>)
    ensures
        spec_reorder(s, sel, MoveDirection::Up).len() == s.len(),
        spec_reorder(s, sel, MoveDirection::Down).len() == s.len(),
        forall|p: int| 0 <= p < s.len() ==> #[trigger] spec_reorder(s, sel, MoveDirection::Up)[p]
            == raised_at(s, sel, s.len() as int, p),
        forall|p: int| 0 <= p < s.len() ==> #[trigger] spec_reorder(s, sel, MoveDirection::Down)[p]
            == lowered_at(s, sel, 0, p),
{
    lemma_reorder_is_stable_permutation(s, sel, MoveDirection::Up);
    lemma_reorder_is_stable_permutation(s, sel, MoveDirection::Down);
    if s.len() > 0 {
        lemma_up_pass_raises(s, sel, s.len());
        lemma_down_pass_lowers(s, sel, (s.len() - 1) as nat);
    }
}

/// With no selected item in the playlist, moving changes nothing.
pub proof fn lemma_reorder_without_selection_is_identity(s: Seq<i64>, sel: Set<i64>, dir: MoveDirection)
    requires
        forall|j: int| 0 <= j < s.len() ==> !sel.contains(#[trigger] s[j]),
    ensures
        spec_reorder(s, sel, dir) == s,
{
    lemma_reorder_moves_blocks(s, sel);
    let r = spec_reorder(s, sel, dir);
    assert forall|p: int| 0 <= p < s.len() implies #[trigger] r[p] == s[p] by {
        if p + 1 < s.len() {
            assert(!sel.contains(s[p + 1]));
        }
        if p > 0 {
            assert(!sel.contains(s[p - 1]));
        }
        assert(!sel.contains(s[p]));
    }
    assert(r =~= s);
}

/// The items a move acts on: with a non-empty selection, exactly the
/// selected items, whatever the cursor; with none, the cursor item alone (or
/// nothing without a cursor). So the cursor never changes the move of a
/// non-empty selection.
pub proof fn lemma_selection_ignores_cursor_when_selected(
    s: Seq<i64>,
    selection: Seq<i64>,
    cursor: Option<i64>,
    dir: MoveDirection,
)
    ensures
        selection.len() > 0 ==> forall|x: i64| #[trigger] spec_selection_set(selection, cursor).contains(x)
            <==> selection.contains(x),
        selection.len() == 0 ==> forall|x: i64| #[trigger] spec_selection_set(selection, cursor).contains(x)
            <==> cursor == Some(x),
        selection.len() > 0 ==> spec_reorder(s, spec_selection_set(selection, cursor), dir) == spec_reorder(
            s,
            spec_selection_set(selection, None),
            dir,
        ),
{
    if selection.len() > 0 {
        assert(spec_selection_set(selection, cursor) =~= spec_selection_set(selection, None));
    }
}

/// Items away from the moved blocks stay where they are: moving up, an
/// unselected item whose successor is unselected (or that is last) keeps its
/// place; moving down, one whose predecessor is unselected (or that is
/// first) does; and a selected run that starts the list cannot move up, nor
/// one that ends it down.
pub proof fn lemma_reorder_leaves_other_items(s: Seq<i64>, sel: Set<i64>, p: int)
    requires
        0 <= p < s.len(),
    ensures
        !sel.contains(s[p]) && (p + 1 == s.len() || !sel.contains(s[p + 1])) ==> spec_reorder(s, sel, MoveDirection::Up)[p]
            == s[p],
        !sel.contains(s[p]) && (p == 0 || !sel.contains(s[p - 1])) ==> spec_reorder(s, sel, MoveDirection::Down)[p]
            == s[p],
        (forall|j: int| 0 <= j <= p ==> sel.contains(#[trigger] s[j])) ==> spec_reorder(s, sel, MoveDirection::Up)[p]
            == s[p],
        (forall|j: int| p <= j < s.len() ==> sel.contains(#[trigger] s[j])) ==> spec_reorder(s, sel, MoveDirection::Down)[p]
            == s[p],
{
    lemma_reorder_moves_blocks(s, sel);
    lemma_run_start_bounds(s, sel, p);
    lemma_run_end_bounds(s, sel, p);
    if p + 1 < s.len() {
        lemma_run_start_bounds(s, sel, p + 1);
    }
    if p > 0 {
        lemma_run_end_bounds(s, sel, p - 1);
    }
    if forall|j: int| 0 <= j <= p ==> sel.contains(#[trigger] s[j]) {
        lemma_run_start_is_zero(s, sel, p);
        if p + 1 < s.len() && sel.contains(s[p + 1]) {
            assert(run_start(s, sel, p + 1) == run_start(s, sel, p));
        }
    }
    if forall|j: int| p <= j < s.len() ==> sel.contains(#[trigger] s[j]) {
        lemma_run_end_is_last(s, sel, p);
        if p > 0 && sel.contains(s[p - 1]) {
            assert(run_end(s, sel, p - 1) == run_end(s, sel, p));
        }
    }
}

proof fn lemma_run_start_is_zero(s: Seq<i64>, sel: Set<i64>, p: int)
    requires
        0 <= p < s.len(),
        forall|j: int| 0 <= j <= p ==> sel.contains(#[trigger] s[j]),
    ensures
        run_start(s, sel, p) == 0,
    decreases p,
{
    if p > 0 {
        assert(sel.contains(s[p - 1]));
        lemma_run_start_is_zero(s, sel, p - 1);
    }
}

proof fn lemma_run_end_is_last(s: Seq<i64>, sel: Set<i64>, p: int)
    requires
        0 <= p < s.len(),
        forall|j: int| p <= j < s.len() ==> sel.contains(#[trigger] s[j]),
    ensures
        run_end(s, sel, p) == s.len() - 1,
    decreases s.len() - p,
{
    if p + 1 < s.len() {
        assert(sel.contains(s[p + 1]));
        lemma_run_end_is_last(s, sel, p + 1);
    }
}

/// Whether `v` holds `x`.
pub fn contains_id(v: &Vec<i64>, x: i64) -> (r: bool)
    ensures
        r == v@.contains(x),
{
    let mut i: usize = 0;
    while i < v.len()
        invariant
            i <= v.len(),
            forall|j: int| 0 <= j < i ==> v@[j] != x,
        decreases v.len() - i,
    {
        if v[i] == x {
            return true;
        }
        i += 1;
    }
    false
}

/// The playlist order after moving the selected items (or the cursor item,
/// when nothing is selected) one step up or down. Runs of adjacent selected
/// items move together; items already at the edge stay where they are.
pub fn reorder_selection(
    item_ids: &Vec<i64>,
    direction: MoveDirection,
    selection: &Vec<i64>,
    cursor: Option<i64>,
) -> (r: Vec<i64>)
    ensures
        r@ == spec_reorder(item_ids@, spec_selection_set(selection@, cursor), direction),
{
    let ghost sel = spec_selection_set(selection@, cursor);
    let mut chosen: Vec<i64> = Vec::new();
    if selection.len() == 0 {
        if let Some(c) = cursor {
            chosen.push(c);
            assert(chosen@[0] == c);
            assert(chosen@.to_set() =~= sel) by {
                assert forall|a: i64| chosen@.contains(a) <==> a == c by {
                    if chosen@.contains(a) {
                        let j = choose|j: int| 0 <= j < chosen@.len() && chosen@[j] == a;
                        assert(j == 0);
                    }
                }
            }
        } else {
            assert(chosen@.to_set() =~= sel);
        }
    } else {
        chosen = selection.clone();
        assert(chosen@ =~= selection@);
        assert(chosen@.to_set() =~= sel);
    }
    let mut ids = item_ids.clone();
    let n = ids.len();
    match direction {
        MoveDirection::Up => {
            let mut index: usize = 1;
            if n == 0 {
                return ids;
            }
            while index < n
                invariant
                    1 <= index <= n,
                    n == item_ids@.len(),
                    sel == chosen@.to_set(),
                    ids@ == up_pass(item_ids@, sel, index as nat),
                    ids@.len() == n,
                decreases n - index,
            {
                let ghost before = ids@;
                let cur = ids[index];
                let prev = ids[index - 1];
                let a = contains_id(&chosen, cur);
                let b = contains_id(&chosen, prev);
                assert(chosen@.contains(cur) == sel.contains(cur));
                assert(chosen@.contains(prev) == sel.contains(prev));
                if a && !b {
                    ids.set(index - 1, cur);
                    ids.set(index, prev);
                }
                index += 1;
                assert(ids@ =~= up_pass(item_ids@, sel, index as nat));
            }
            ids
        },
        MoveDirection::Down => {
            if n == 0 {
                return ids;
            }
            let mut m: usize = 0;
            while m + 1 < n
                invariant
                    m + 1 <= n,
                    n == item_ids@.len(),
                    sel == chosen@.to_set(),
                    ids@ == down_pass(item_ids@, sel, m as nat),
                    ids@.len() == n,
                decreases n - m,
            {
                let index = n - 2 - m;
                let cur = ids[index];
                let next = ids[index + 1];
                let a = contains_id(&chosen, cur);
                let b = contains_id(&chosen, next);
                assert(chosen@.contains(cur) == sel.contains(cur));
                assert(chosen@.contains(next) == sel.contains(next));
                if a && !b {
                    ids.set(index, next);
                    ids.set(index + 1, cur);
                }
                m += 1;
                assert(ids@ =~= down_pass(item_ids@, sel, m as nat));
            }
            ids
        },
    }
}

} // verus!
