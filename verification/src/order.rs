//! Lexicographic order on rank sequences, and a stable sort by rank.
use vstd::prelude::*;
use vstd::string::*;
use vstd::utf8::*;

verus! {

/// `a` comes strictly before `b` in lexicographic order.
pub open spec fn lex_lt(a: Seq<int>, b: Seq<int>) -> bool
    decreases a.len(),
{
    if b.len() == 0 {
        false
    } else if a.len() == 0 {
        true
    } else if a[0] != b[0] {
        a[0] < b[0]
    } else {
        lex_lt(a.drop_first(), b.drop_first())
    }
}

/// Nothing comes before itself.
pub proof fn lemma_lex_irreflexive(a: Seq<int>)
    ensures
        !lex_lt(a, a),
    decreases a.len(),
{
    if a.len() > 0 {
        lemma_lex_irreflexive(a.drop_first());
    }
}

/// The order chains.
pub proof fn lemma_lex_transitive(a: Seq<int>, b: Seq<int>, c: Seq<int>)
    requires
        lex_lt(a, b),
        lex_lt(b, c),
    ensures
        lex_lt(a, c),
    decreases a.len(),
{
    if a.len() > 0 && b.len() > 0 && c.len() > 0 && a[0] == b[0] && b[0] == c[0] {
        lemma_lex_transitive(a.drop_first(), b.drop_first(), c.drop_first());
    }
}

/// Of two different sequences one comes first.
pub proof fn lemma_lex_total(a: Seq<int>, b: Seq<int>)
    ensures
        lex_lt(a, b) || a == b || lex_lt(b, a),
    decreases a.len(),
{
    if a.len() == 0 && b.len() == 0 {
        assert(a =~= b);
    } else if a.len() > 0 && b.len() > 0 && a[0] == b[0] {
        lemma_lex_total(a.drop_first(), b.drop_first());
        if a.drop_first() == b.drop_first() {
            assert(a =~= seq![a[0]] + a.drop_first());
            assert(b =~= seq![b[0]] + b.drop_first());
        }
    }
}

/// No two sequences come before each other.
pub proof fn lemma_lex_asymmetric(a: Seq<int>, b: Seq<int>)
    requires
        lex_lt(a, b),
    ensures
        !lex_lt(b, a),
        a != b,
{
    if lex_lt(b, a) {
        lemma_lex_transitive(a, b, a);
    }
    lemma_lex_irreflexive(a);
}

/// A head decides unless it is equal.
pub proof fn lemma_lex_head(a: int, rest_a: Seq<int>, b: int, rest_b: Seq<int>)
    ensures
        lex_lt(seq![a] + rest_a, seq![b] + rest_b) == (a < b || (a == b && lex_lt(rest_a, rest_b))),
{
    assert((seq![a] + rest_a).drop_first() =~= rest_a);
    assert((seq![b] + rest_b).drop_first() =~= rest_b);
}

/// Two numbers are compared one after the other.
pub proof fn lemma_lex_two(a1: int, a2: int, b1: int, b2: int)
    ensures
        lex_lt(seq![a1, a2], seq![b1, b2]) == (a1 < b1 || (a1 == b1 && a2 < b2)),
{
    let none = Seq::<int>::empty();
    lemma_lex_head(a2, none, b2, none);
    lemma_lex_head(a1, seq![a2], b1, seq![b2]);
    assert(seq![a2] + none =~= seq![a2]);
    assert(seq![b2] + none =~= seq![b2]);
    assert(seq![a1] + seq![a2] =~= seq![a1, a2]);
    assert(seq![b1] + seq![b2] =~= seq![b1, b2]);
}

/// Three numbers are compared one after the other.
pub proof fn lemma_lex_three(a1: int, a2: int, a3: int, b1: int, b2: int, b3: int)
    ensures
        lex_lt(seq![a1, a2, a3], seq![b1, b2, b3]) == (a1 < b1 || (a1 == b1 && (a2 < b2 || (a2 == b2
            && a3 < b3)))),
{
    lemma_lex_two(a2, a3, b2, b3);
    lemma_lex_head(a1, seq![a2, a3], b1, seq![b2, b3]);
    assert(seq![a1] + seq![a2, a3] =~= seq![a1, a2, a3]);
    assert(seq![b1] + seq![b2, b3] =~= seq![b1, b2, b3]);
}

/// Four numbers are compared one after the other.
pub proof fn lemma_lex_four(
    a1: int,
    a2: int,
    a3: int,
    a4: int,
    b1: int,
    b2: int,
    b3: int,
    b4: int,
)
    ensures
        lex_lt(seq![a1, a2, a3, a4], seq![b1, b2, b3, b4]) == (a1 < b1 || (a1 == b1 && (a2 < b2 || (
        a2 == b2 && (a3 < b3 || (a3 == b3 && a4 < b4)))))),
{
    lemma_lex_two(a3, a4, b3, b4);
    lemma_lex_head(a2, seq![a3, a4], b2, seq![b3, b4]);
    lemma_lex_head(a1, seq![a2, a3, a4], b1, seq![b2, b3, b4]);
    assert(seq![a2] + seq![a3, a4] =~= seq![a2, a3, a4]);
    assert(seq![b2] + seq![b3, b4] =~= seq![b2, b3, b4]);
    assert(seq![a1] + seq![a2, a3, a4] =~= seq![a1, a2, a3, a4]);
    assert(seq![b1] + seq![b2, b3, b4] =~= seq![b1, b2, b3, b4]);
}

/// The sequence by which text is ordered: its UTF-8 bytes, then an end mark
/// that comes before every byte.
pub open spec fn text_rank(text: Seq<char>) -> Seq<int> {
    bytes_rank(encode_utf8(text))
}

/// Bytes with an end mark that comes before every byte.
pub open spec fn bytes_rank(bytes: Seq<u8>) -> Seq<int> {
    bytes.map_values(|b: u8| b as int).push(-1)
}

/// A sequence that ends with the end mark and holds it nowhere else.
pub open spec fn ends_once(a: Seq<int>) -> bool {
    &&& a.len() > 0
    &&& a.last() == -1
    &&& forall|i: int| 0 <= i < a.len() - 1 ==> #[trigger] a[i] >= 0
}

pub proof fn lemma_text_rank_ends_once(text: Seq<char>)
    ensures
        ends_once(text_rank(text)),
{
}

/// Behind an end mark, what follows decides only between equal heads.
pub proof fn lemma_lex_ended(a: Seq<int>, rest_a: Seq<int>, b: Seq<int>, rest_b: Seq<int>)
    requires
        ends_once(a),
        ends_once(b),
    ensures
        lex_lt(a + rest_a, b + rest_b) == (lex_lt(a, b) || (a == b && lex_lt(rest_a, rest_b))),
    decreases a.len(),
{
    let la = a + rest_a;
    let lb = b + rest_b;
    assert(la[0] == a[0] && lb[0] == b[0]);
    if a[0] == b[0] {
        if a.len() == 1 || b.len() == 1 {
            assert(a.len() == 1 && b.len() == 1);
            assert(a =~= b);
            assert(la.drop_first() =~= rest_a);
            assert(lb.drop_first() =~= rest_b);
            lemma_lex_irreflexive(a);
        } else {
            let a1 = a.drop_first();
            let b1 = b.drop_first();
            assert(la.drop_first() =~= a1 + rest_a);
            assert(lb.drop_first() =~= b1 + rest_b);
            lemma_lex_ended(a1, rest_a, b1, rest_b);
            if a1 == b1 {
                assert(a =~= seq![a[0]] + a1);
                assert(b =~= seq![b[0]] + b1);
            }
        }
    }
}

/// Texts of equal rank are equal.
pub proof fn lemma_text_rank_injective(a: Seq<char>, b: Seq<char>)
    requires
        text_rank(a) == text_rank(b),
    ensures
        a == b,
{
    let ea = encode_utf8(a);
    let eb = encode_utf8(b);
    assert(ea =~= eb) by {
        assert(ea.len() == eb.len()) by {
            assert(text_rank(a).len() == ea.len() + 1);
            assert(text_rank(b).len() == eb.len() + 1);
        }
        assert forall|i: int| 0 <= i < ea.len() implies ea[i] == eb[i] by {
            assert(text_rank(a)[i] == ea[i] as int);
            assert(text_rank(b)[i] == eb[i] as int);
        }
    }
    encode_utf8_decode_utf8(a);
    encode_utf8_decode_utf8(b);
}

proof fn lemma_lex_common_prefix(a: Seq<int>, b: Seq<int>, n: int)
    requires
        0 <= n <= a.len(),
        n <= b.len(),
        forall|i: int| 0 <= i < n ==> a[i] == b[i],
    ensures
        lex_lt(a, b) == lex_lt(a.subrange(n, a.len() as int), b.subrange(n, b.len() as int)),
    decreases n,
{
    if n == 0 {
        assert(a.subrange(0, a.len() as int) =~= a);
        assert(b.subrange(0, b.len() as int) =~= b);
    } else {
        let a1 = a.drop_first();
        let b1 = b.drop_first();
        assert forall|i: int| 0 <= i < n - 1 implies a1[i] == b1[i] by {
            assert(a1[i] == a[i + 1]);
            assert(b1[i] == b[i + 1]);
        }
        lemma_lex_common_prefix(a1, b1, n - 1);
        assert(a1.subrange(n - 1, a1.len() as int) =~= a.subrange(n, a.len() as int));
        assert(b1.subrange(n - 1, b1.len() as int) =~= b.subrange(n, b.len() as int));
        assert(a[0] == b[0]);
    }
}

/// Whether `a` comes strictly before `b`, compared byte by byte.
pub fn bytes_before(a: &[u8], b: &[u8]) -> (r: bool)
    ensures
        r == lex_lt(bytes_rank(a@), bytes_rank(b@)),
{
    let ghost ra = bytes_rank(a@);
    let ghost rb = bytes_rank(b@);
    let mut i: usize = 0;
    while i < a.len() && i < b.len() && a[i] == b[i]
        invariant
            i <= a.len(),
            i <= b.len(),
            forall|k: int| 0 <= k < i ==> a@[k] == b@[k],
        decreases a.len() - i,
    {
        i = i + 1;
    }
    proof {
        assert(ra.len() == a@.len() + 1 && rb.len() == b@.len() + 1);
        assert forall|k: int| 0 <= k < i implies ra[k] == rb[k] by {
            assert(ra[k] == a@[k] as int);
            assert(rb[k] == b@[k] as int);
        }
        lemma_lex_common_prefix(ra, rb, i as int);
        let ta = ra.subrange(i as int, ra.len() as int);
        let tb = rb.subrange(i as int, rb.len() as int);
        assert(ta[0] == ra[i as int]);
        assert(tb[0] == rb[i as int]);
        if i == a@.len() && i == b@.len() {
            assert(ta =~= tb);
            lemma_lex_irreflexive(ta);
        }
    }
    if i == a.len() {
        i < b.len()
    } else if i == b.len() {
        false
    } else {
        a[i] < b[i]
    }
}

/// Whether `a` comes strictly before `b`, compared by their UTF-8 bytes.
pub fn text_before(a: &str, b: &str) -> (r: bool)
    ensures
        r == lex_lt(text_rank(a@), text_rank(b@)),
{
    bytes_before(a.as_bytes(), b.as_bytes())
}

/// A value that is ordered by a sequence of integers.
pub trait Ranked: Sized {
    /// The sequence by which values of this type are ordered.
    spec fn rank(&self) -> Seq<int>;

    /// Whether `self` comes strictly before `other`.
    fn before(&self, other: &Self) -> (r: bool)
        ensures
            r == lex_lt(self.rank(), other.rank()),
    ;
}

/// `out` is `input` reordered by `source`: position `i` of `out` holds what
/// stood at position `source[i]`, every position is used once, ranks never
/// decrease, and equal ranks keep their input order.
pub open spec fn is_stable_sort<T: Ranked>(input: Seq<T>, out: Seq<T>, source: Seq<int>) -> bool {
    &&& out.len() == input.len()
    &&& source.len() == input.len()
    &&& source.no_duplicates()
    &&& forall|i: int|
        #![trigger source[i]]
        #![trigger out[i]]
        0 <= i < out.len() ==> 0 <= source[i] < input.len() && out[i] == input[source[i]]
    &&& forall|i: int, j: int|
        #![trigger out[i], out[j]]
        0 <= i < j < out.len() ==> lex_lt(out[i].rank(), out[j].rank()) || (out[i].rank()
            == out[j].rank() && source[i] < source[j])
}

/// Sorts by rank; values of equal rank keep their order.
pub fn sort_ranked<T: Ranked>(input: Vec<T>) -> (out: Vec<T>)
    ensures
        exists|source: Seq<int>| is_stable_sort(input@, out@, source),
{
    let ghost whole = input@;
    let mut rest = input;
    let mut reversed: Vec<T> = Vec::new();
    // Moving items off the end reverses them; moving them back restores the order.
    while rest.len() > 0
        invariant
            reversed.len() + rest.len() == whole.len(),
            forall|i: int| 0 <= i < rest.len() ==> rest[i] == whole[i],
            forall|i: int| 0 <= i < reversed.len() ==> reversed[i] == whole[whole.len() - 1 - i],
        decreases rest.len(),
    {
        match rest.pop() {
            Some(item) => {
                reversed.push(item);
            },
            None => {},
        }
    }
    let mut out: Vec<T> = Vec::new();
    let ghost mut source: Seq<int> = Seq::empty();
    while reversed.len() > 0
        invariant
            out.len() + reversed.len() == whole.len(),
            forall|i: int| 0 <= i < reversed.len() ==> reversed[i] == whole[whole.len() - 1 - i],
            is_stable_sort(whole.subrange(0, out.len() as int), out@, source),
        decreases reversed.len(),
    {
        let ghost done: int = out.len() as int;
        let ghost before_items = out@;
        let ghost before_source = source;
        match reversed.pop() {
            Some(item) => {
                let mut at: usize = out.len();
                assert(item == whole[done]);
                let mut searching: bool = true;
                while searching
                    invariant
                        0 <= at <= out.len(),
                        out@ == before_items,
                        done == out.len(),
                        forall|k: int| at <= k < out.len() ==> lex_lt(item.rank(), #[trigger] out[k].rank()),
                        !searching ==> at == 0 || !lex_lt(item.rank(), out[at - 1].rank()),
                    decreases at + (if searching { 1int } else { 0int }),
                {
                    if at == 0 {
                        searching = false;
                    } else if item.before(&out[at - 1]) {
                        at = at - 1;
                    } else {
                        searching = false;
                    }
                }
                proof {
                    lemma_insert_keeps_sorted(
                        whole.subrange(0, done),
                        before_items,
                        before_source,
                        item,
                        at as int,
                    );
                    source = before_source.insert(at as int, done);
                    assert(whole.subrange(0, done + 1) =~= whole.subrange(0, done).push(item));
                }
                out.insert(at, item);
            },
            None => {},
        }
    }
    proof {
        assert(whole.subrange(0, whole.len() as int) =~= whole);
        assert(is_stable_sort(whole, out@, source));
    }
    out
}

/// Every position of the input ends up somewhere in a sort of it.
pub proof fn lemma_sort_covers<T: Ranked>(input: Seq<T>, out: Seq<T>, source: Seq<int>, at: int)
    requires
        is_stable_sort(input, out, source),
        0 <= at < input.len(),
    ensures
        exists|k: int| 0 <= k < source.len() && #[trigger] source[k] == at,
{
    lemma_indices_covered(source, input.len(), at);
}

/// A list of `n` different numbers below `n` holds each of them.
pub proof fn lemma_indices_covered(source: Seq<int>, n: nat, at: int)
    requires
        source.len() == n,
        source.no_duplicates(),
        forall|i: int| 0 <= i < n ==> 0 <= #[trigger] source[i] < n,
        0 <= at < n,
    ensures
        exists|k: int| 0 <= k < n && #[trigger] source[k] == at,
{
    let all = vstd::set_lib::set_int_range(0, n as int);
    vstd::set_lib::lemma_int_range(0, n as int);
    let used = source.to_set();
    source.unique_seq_to_set();
    vstd::seq_lib::seq_to_set_is_finite(source);
    assert forall|x: int| used.contains(x) implies all.contains(x) by {
        assert(source.contains(x));
        let i = choose|i: int| 0 <= i < source.len() && source[i] == x;
        assert(0 <= source[i] < n);
    }
    vstd::set_lib::lemma_subset_equality(used, all);
    assert(all.contains(at));
    assert(source.contains(at));
    let k = choose|k: int| 0 <= k < source.len() && source[k] == at;
    assert(source[k] == at);
}

proof fn lemma_insert_keeps_sorted<T: Ranked>(
    input: Seq<T>,
    out: Seq<T>,
    source: Seq<int>,
    item: T,
    at: int,
)
    requires
        is_stable_sort(input, out, source),
        0 <= at <= out.len(),
        forall|k: int| at <= k < out.len() ==> lex_lt(item.rank(), #[trigger] out[k].rank()),
        at == 0 || !lex_lt(item.rank(), out[at - 1].rank()),
    ensures
        is_stable_sort(input.push(item), out.insert(at, item), source.insert(at, input.len() as int)),
{
    let out2 = out.insert(at, item);
    let source2 = source.insert(at, input.len() as int);
    let input2 = input.push(item);
    assert forall|i: int| 0 <= i < out2.len() implies 0 <= #[trigger] source2[i] < input2.len()
        && out2[i] == input2[source2[i]] by {
        if i < at {
            assert(source2[i] == source[i]);
        } else if i > at {
            assert(source2[i] == source[i - 1]);
        }
    }
    assert forall|i: int, j: int| 0 <= i < source2.len() && 0 <= j < source2.len() && i
        != j implies source2[i] != source2[j] by {
        let i0 = if i < at { i } else { i - 1 };
        let j0 = if j < at { j } else { j - 1 };
        if i != at {
            assert(source2[i] == source[i0]);
        }
        if j != at {
            assert(source2[j] == source[j0]);
        }
    }
    assert forall|i: int, j: int|
        #![trigger out2[i], out2[j]]
        0 <= i < j < out2.len() implies lex_lt(out2[i].rank(), out2[j].rank()) || (out2[i].rank()
        == out2[j].rank() && source2[i] < source2[j]) by {
        if j == at {
            let last = out[at - 1];
            lemma_lex_total(item.rank(), last.rank());
            assert(out2[i] == out[i]);
            assert(source2[i] == source[i]);
            if i < at - 1 {
                if lex_lt(out[i].rank(), last.rank()) && lex_lt(last.rank(), item.rank()) {
                    lemma_lex_transitive(out[i].rank(), last.rank(), item.rank());
                }
            }
        } else if i == at {
            assert(out2[j] == out[j - 1]);
        } else {
            let i0 = if i < at { i } else { i - 1 };
            let j0 = if j < at { j } else { j - 1 };
            assert(out2[i] == out[i0] && out2[j] == out[j0]);
            assert(source2[i] == source[i0] && source2[j] == source[j0]);
        }
    }
}

} // verus!
