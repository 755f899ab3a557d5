//! Positions in a list that meet a condition.
use vstd::prelude::*;

verus! {

/// `out` lists, in ascending order, exactly the positions below `n` that meet
/// the condition.
pub open spec fn selects(n: int, condition: spec_fn(int) -> bool, out: Seq<usize>) -> bool {
    &&& forall|k: int|
        0 <= k < out.len() ==> (#[trigger] out[k]) < n && condition(out[k] as int)
    &&& forall|j: int, k: int|
        0 <= j < k < out.len() ==> (#[trigger] out[j]) < (#[trigger] out[k])
    &&& forall|i: int|
        0 <= i < n && #[trigger] condition(i) ==> out.contains(i as usize)
}

/// One more position: it is listed if it meets the condition.
pub proof fn lemma_selects_step(
    n: int,
    condition: spec_fn(int) -> bool,
    out: Seq<usize>,
)
    requires
        0 <= n < usize::MAX,
        selects(n, condition, out),
    ensures
        condition(n) ==> selects(n + 1, condition, out.push(n as usize)),
        !condition(n) ==> selects(n + 1, condition, out),
{
    if condition(n) {
        let more = out.push(n as usize);
        assert(more[out.len() as int] == n as usize);
        assert forall|i: int| 0 <= i < n + 1 && #[trigger] condition(i) implies more.contains(
            i as usize,
        ) by {
            if i < n {
                assert(out.contains(i as usize));
                let k = choose|k: int| 0 <= k < out.len() && out[k] == i as usize;
                assert(more[k] == i as usize);
            }
        }
    } else {
        assert forall|i: int| 0 <= i < n + 1 && #[trigger] condition(i) implies out.contains(
            i as usize,
        ) by {}
    }
}

/// Two lists that select the same are the same.
pub proof fn law_selection_is_unique(
    n: int,
    condition: spec_fn(int) -> bool,
    a: Seq<usize>,
    b: Seq<usize>,
)
    requires
        n <= usize::MAX,
        selects(n, condition, a),
        selects(n, condition, b),
    ensures
        a == b,
    decreases a.len() + b.len(),
{
    if a.len() == 0 {
        if b.len() > 0 {
            assert(condition(b[0] as int));
            assert(a.contains(b[0]));
        }
        assert(a =~= b);
    } else if b.len() == 0 {
        assert(condition(a[0] as int));
        assert(b.contains(a[0]));
    } else {
        let la = a.last();
        let lb = b.last();
        assert(condition(a[a.len() - 1] as int) && condition(b[b.len() - 1] as int));
        assert(b.contains(la) && a.contains(lb));
        let i = choose|i: int| 0 <= i < b.len() && b[i] == la;
        let j = choose|j: int| 0 <= j < a.len() && a[j] == lb;
        assert(la == lb) by {
            if i < b.len() - 1 {
                assert(b[i] < b[b.len() - 1]);
            }
            if j < a.len() - 1 {
                assert(a[j] < a[a.len() - 1]);
            }
        }
        lemma_selects_front(n, condition, a);
        lemma_selects_front(n, condition, b);
        law_selection_is_unique(la as int, condition, a.drop_last(), b.drop_last());
        assert(a =~= a.drop_last().push(la));
        assert(b =~= b.drop_last().push(lb));
    }
}

proof fn lemma_selects_front(n: int, condition: spec_fn(int) -> bool, a: Seq<usize>)
    requires
        n <= usize::MAX,
        selects(n, condition, a),
        a.len() > 0,
    ensures
        selects(a.last() as int, condition, a.drop_last()),
{
    let front = a.drop_last();
    let last = a.last() as int;
    assert forall|k: int| 0 <= k < front.len() implies (#[trigger] front[k]) < last && condition(
        front[k] as int,
    ) by {
        assert(a[k] < a[a.len() - 1]);
    }
    assert(a[a.len() - 1] < n);
    assert forall|i: int| 0 <= i < last && #[trigger] condition(i) implies front.contains(
        i as usize,
    ) by {
        assert(a.contains(i as usize));
        let k = choose|k: int| 0 <= k < a.len() && a[k] == i as usize;
        assert(front[k] == i as usize);
    }
}

/// Lists of two conditions of which every position meets exactly one hold every
/// position once.
pub proof fn law_selections_part(
    n: int,
    one: spec_fn(int) -> bool,
    other: spec_fn(int) -> bool,
    a: Seq<usize>,
    b: Seq<usize>,
)
    requires
        0 <= n <= usize::MAX,
        selects(n, one, a),
        selects(n, other, b),
        forall|i: int| #![trigger one(i)] #![trigger other(i)] 0 <= i < n ==> one(i) != other(i),
    ensures
        a.len() + b.len() == n,
    decreases n,
{
    if n == 0 {
        if a.len() > 0 {
            assert(a[0] < n);
        }
        if b.len() > 0 {
            assert(b[0] < n);
        }
    } else if one(n - 1) {
        lemma_last_selected(n, one, a);
        lemma_last_skipped(n, other, b);
        law_selections_part(n - 1, one, other, a.drop_last(), b);
    } else {
        assert(other(n - 1));
        lemma_last_selected(n, other, b);
        lemma_last_skipped(n, one, a);
        law_selections_part(n - 1, one, other, a, b.drop_last());
    }
}

proof fn lemma_last_selected(n: int, condition: spec_fn(int) -> bool, out: Seq<usize>)
    requires
        0 < n <= usize::MAX,
        selects(n, condition, out),
        condition(n - 1),
    ensures
        out.len() > 0,
        selects(n - 1, condition, out.drop_last()),
{
    let less = out.drop_last();
    assert(out.contains((n - 1) as usize));
    let at = choose|k: int| 0 <= k < out.len() && out[k] == (n - 1) as usize;
    assert(at == out.len() - 1) by {
        if at < out.len() - 1 {
            assert(out[at] < out[out.len() - 1]);
        }
    }
    assert forall|k: int| 0 <= k < less.len() implies (#[trigger] less[k]) < n - 1 && condition(
        less[k] as int,
    ) by {
        assert(out[k] < out[at]);
    }
    assert forall|i: int| 0 <= i < n - 1 && #[trigger] condition(i) implies less.contains(
        i as usize,
    ) by {
        assert(out.contains(i as usize));
        let k = choose|k: int| 0 <= k < out.len() && out[k] == i as usize;
        assert(less[k] == i as usize);
    }
}

proof fn lemma_last_skipped(n: int, condition: spec_fn(int) -> bool, out: Seq<usize>)
    requires
        0 < n <= usize::MAX,
        selects(n, condition, out),
        !condition(n - 1),
    ensures
        selects(n - 1, condition, out),
{
    assert forall|k: int| 0 <= k < out.len() implies (#[trigger] out[k]) < n - 1 && condition(
        out[k] as int,
    ) by {
        assert(out[k] < n && condition(out[k] as int));
    }
}

} // verus!
