use vstd::prelude::*;

use vstd::multiset::Multiset;
use vstd::seq_lib::lemma_multiset_commutative;
use crate::arith::round_div;
use crate::types::ClassifiedHolder;

verus! {

/// Inserts `x` into a list after every element whose balance is at least
/// `x`'s, so equal balances keep their relative order.
pub open spec fn insert_desc(s: Seq<ClassifiedHolder>, x: ClassifiedHolder) -> Seq<
    ClassifiedHolder,
>
    decreases s.len(),
{
    if s.len() == 0 {
        seq![x]
    } else if s[0].holder.balance >= x.holder.balance {
        seq![s[0]] + insert_desc(s.drop_first(), x)
    } else {
        seq![x] + s
    }
}

/// The stable sort of a list by raw balance, descending.
pub open spec fn sort_desc(s: Seq<ClassifiedHolder>) -> Seq<ClassifiedHolder>
    decreases s.len(),
{
    if s.len() == 0 {
        Seq::empty()
    } else {
        insert_desc(sort_desc(s.drop_last()), s.last())
    }
}

/// Ordered by raw balance, descending.
pub open spec fn sorted_desc(s: Seq<ClassifiedHolder>) -> bool {
    forall|i: int, j: int|
        0 <= i <= j < s.len() ==> s[i].holder.balance >= s[j].holder.balance
}

/// How many leading elements have a balance at least `x`'s: the position
/// `insert_desc` inserts at.
pub open spec fn ge_prefix_len(s: Seq<ClassifiedHolder>, x: ClassifiedHolder) -> int
    decreases s.len(),
{
    if s.len() == 0 {
        0
    } else if s[0].holder.balance >= x.holder.balance {
        1 + ge_prefix_len(s.drop_first(), x)
    } else {
        0
    }
}

proof fn lemma_ge_prefix_props(s: Seq<ClassifiedHolder>, x: ClassifiedHolder)
    ensures
        0 <= ge_prefix_len(s, x) <= s.len(),
        forall|q: int|
            0 <= q < ge_prefix_len(s, x) ==> s[q].holder.balance >= x.holder.balance,
        ge_prefix_len(s, x) < s.len() ==> s[ge_prefix_len(s, x)].holder.balance
            < x.holder.balance,
    decreases s.len(),
{
    if s.len() > 0 {
        lemma_ge_prefix_props(s.drop_first(), x);
        let p = ge_prefix_len(s, x);
        if s[0].holder.balance >= x.holder.balance {
            assert forall|q: int| 0 <= q < p implies s[q].holder.balance >= x.holder.balance by {
                if q > 0 {
                    assert(s.drop_first()[q - 1] == s[q]);
                }
            }
            if p < s.len() {
                assert(s.drop_first()[p - 1] == s[p]);
            }
        }
    }
}

/// Where the leading `p` elements outweigh `x` and the element at `p` (if
/// any) does not, the insertion lands exactly at `p`.
proof fn lemma_insert_desc_at(s: Seq<ClassifiedHolder>, x: ClassifiedHolder, p: int)
    requires
        0 <= p <= s.len(),
        forall|q: int| 0 <= q < p ==> s[q].holder.balance >= x.holder.balance,
        p < s.len() ==> s[p].holder.balance < x.holder.balance,
    ensures
        insert_desc(s, x) == s.take(p) + seq![x] + s.skip(p),
    decreases p,
{
    if p == 0 {
        if s.len() == 0 {
            assert(s.take(0) + seq![x] + s.skip(0) =~= seq![x]);
        } else {
            assert(s[0].holder.balance < x.holder.balance);
            assert(s.take(0) + seq![x] + s.skip(0) =~= seq![x] + s);
        }
    } else {
        assert(s[0].holder.balance >= x.holder.balance);
        let t = s.drop_first();
        assert forall|q: int| 0 <= q < p - 1 implies t[q].holder.balance >= x.holder.balance by {
            assert(t[q] == s[q + 1]);
        }
        assert(p - 1 < t.len() ==> t[p - 1] == s[p]);
        lemma_insert_desc_at(t, x, p - 1);
        assert(insert_desc(s, x) == seq![s[0]] + (t.take(p - 1) + seq![x] + t.skip(p - 1)));
        assert(seq![s[0]] + (t.take(p - 1) + seq![x] + t.skip(p - 1)) =~= s.take(p) + seq![x]
            + s.skip(p));
    }
}

/// Inserting into a sorted list keeps it sorted.
proof fn lemma_insert_desc_sorted(s: Seq<ClassifiedHolder>, x: ClassifiedHolder)
    requires
        sorted_desc(s),
    ensures
        sorted_desc(insert_desc(s, x)),
{
    let p = ge_prefix_len(s, x);
    lemma_ge_prefix_props(s, x);
    lemma_insert_desc_at(s, x, p);
    let r = s.take(p) + seq![x] + s.skip(p);
    assert forall|i: int, j: int|
        0 <= i <= j < r.len() implies r[i].holder.balance >= r[j].holder.balance by {
        if i < p {
            assert(r[i] == s[i]);
        } else if i == p {
            assert(r[i] == x);
        } else {
            assert(r[i] == s[i - 1]);
        }
        if j < p {
            assert(r[j] == s[j]);
        } else if j == p {
            assert(r[j] == x);
        } else {
            assert(r[j] == s[j - 1]);
        }
    }
}

/// Sorting yields a list ordered by balance, descending.
pub proof fn lemma_sort_desc_sorted(s: Seq<ClassifiedHolder>)
    ensures
        sorted_desc(sort_desc(s)),
    decreases s.len(),
{
    if s.len() > 0 {
        lemma_sort_desc_sorted(s.drop_last());
        lemma_insert_desc_sorted(sort_desc(s.drop_last()), s.last());
    }
}

/// Sorting keeps the population size.
pub proof fn lemma_sort_desc_len(s: Seq<ClassifiedHolder>)
    ensures
        sort_desc(s).len() == s.len(),
    decreases s.len(),
{
    if s.len() > 0 {
        let st = sort_desc(s.drop_last());
        let x = s.last();
        lemma_sort_desc_len(s.drop_last());
        let p = ge_prefix_len(st, x);
        lemma_ge_prefix_props(st, x);
        lemma_insert_desc_at(st, x, p);
    }
}

/// Sorting permutes the input: no holder appears or disappears.
pub proof fn lemma_sort_desc_permutes(s: Seq<ClassifiedHolder>)
    ensures
        sort_desc(s).to_multiset() == s.to_multiset(),
    decreases s.len(),
{
    broadcast use vstd::seq_lib::group_to_multiset_ensures;

    if s.len() > 0 {
        let t = s.drop_last();
        let x = s.last();
        lemma_sort_desc_permutes(t);
        let st = sort_desc(t);
        let p = ge_prefix_len(st, x);
        lemma_ge_prefix_props(st, x);
        lemma_insert_desc_at(st, x, p);
        lemma_multiset_commutative(st.take(p) + seq![x], st.skip(p));
        lemma_multiset_commutative(st.take(p), seq![x]);
        lemma_multiset_commutative(st.take(p), st.skip(p));
        assert(st.take(p) + st.skip(p) =~= st);
        assert(t.push(x) =~= s);
        assert(seq![x].to_multiset() =~= Multiset::empty().insert(x));
        assert(sort_desc(s).to_multiset() =~= s.to_multiset());
    }
}

/// Filtering away nothing that satisfies nothing: a filter over a list
/// none of whose elements match is empty.
proof fn lemma_filter_none<A>(s: Seq<A>, pred: spec_fn(A) -> bool)
    requires
        forall|j: int| 0 <= j < s.len() ==> !pred(#[trigger] s[j]),
    ensures
        s.filter(pred) == Seq::<A>::empty(),
    decreases s.len(),
{
    reveal(Seq::filter);
    if s.len() > 0 {
        lemma_filter_none(s.drop_last(), pred);
    }
}

/// The sort is stable: the holders of any one balance keep their relative
/// order, stated as: filtering the sorted list to a balance gives the same
/// list as filtering the input.
#[verifier::rlimit(60)]
pub proof fn lemma_sort_desc_stable(s: Seq<ClassifiedHolder>, balance: u64)
    ensures
        sort_desc(s).filter(|c: ClassifiedHolder| c.holder.balance == balance) == s.filter(
            |c: ClassifiedHolder| c.holder.balance == balance,
        ),
    decreases s.len(),
{
    let pred = |c: ClassifiedHolder| c.holder.balance == balance;
    reveal_with_fuel(Seq::filter, 3);
    if s.len() == 0 {
    } else {
        let t = s.drop_last();
        let x = s.last();
        lemma_sort_desc_stable(t, balance);
        lemma_sort_desc_sorted(t);
        let st = sort_desc(t);
        let p = ge_prefix_len(st, x);
        lemma_ge_prefix_props(st, x);
        lemma_insert_desc_at(st, x, p);
        Seq::filter_distributes_over_add(st.take(p) + seq![x], st.skip(p), pred);
        Seq::filter_distributes_over_add(st.take(p), seq![x], pred);
        Seq::filter_distributes_over_add(st.take(p), st.skip(p), pred);
        assert(seq![x].drop_last() =~= Seq::<ClassifiedHolder>::empty());
        assert(seq![x].last() == x);
        if pred(x) {
            assert(seq![x].filter(pred) =~= seq![x]);
        } else {
            assert(seq![x].filter(pred) =~= Seq::<ClassifiedHolder>::empty());
        }
        if pred(x) {
            assert forall|j: int| 0 <= j < st.skip(p).len() implies !pred(
                #[trigger] st.skip(p)[j],
            ) by {
                assert(st.skip(p)[j] == st[p + j]);
                if p + j > p {
                    assert(st[p] == st.skip(p)[0]);
                }
            }
            lemma_filter_none(st.skip(p), pred);
        }
        assert(st.take(p) + st.skip(p) =~= st);
        assert(t + seq![x] =~= s);
        Seq::filter_distributes_over_add(t, seq![x], pred);
        assert(sort_desc(s).filter(pred) =~= s.filter(pred));
    }
}

/// How many classified holders carry the fresh-wallet flag.
pub open spec fn count_fresh(s: Seq<ClassifiedHolder>) -> nat
    decreases s.len(),
{
    if s.len() == 0 {
        0
    } else {
        (count_fresh(s.drop_last()) + (if s.last().flags.is_fresh_wallet {
            1nat
        } else {
            0nat
        })) as nat
    }
}

/// How many classified holders carry the whale flag.
pub open spec fn count_whale(s: Seq<ClassifiedHolder>) -> nat
    decreases s.len(),
{
    if s.len() == 0 {
        0
    } else {
        (count_whale(s.drop_last()) + (if s.last().flags.is_whale {
            1nat
        } else {
            0nat
        })) as nat
    }
}

/// The flag counts never exceed the population.
pub proof fn lemma_counts_le_len(s: Seq<ClassifiedHolder>)
    ensures
        count_fresh(s) <= s.len(),
        count_whale(s) <= s.len(),
    decreases s.len(),
{
    if s.len() > 0 {
        lemma_counts_le_len(s.drop_last());
    }
}

/// The share of a count over a population, in tenths of a percent, rounded
/// to the nearest tenth; zero when the population is empty.
pub open spec fn spec_permille(count: nat, total: nat) -> nat {
    if total == 0 {
        0
    } else {
        round_div(1000 * count, total)
    }
}

/// The bundle wallets and the rest partition the filtered population: the
/// fresh count plus the non-fresh count is the whole count, and over an
/// empty population every share is zero rather than an error.
pub proof fn lemma_population_partition(s: Seq<ClassifiedHolder>)
    ensures
        count_fresh(s) + s.filter(|c: ClassifiedHolder| !c.flags.is_fresh_wallet).len()
            == s.len(),
        spec_permille(count_fresh(s), 0) == 0,
        spec_permille(count_whale(s), 0) == 0,
    decreases s.len(),
{
    reveal(Seq::filter);
    if s.len() > 0 {
        lemma_population_partition(s.drop_last());
    }
}

/// The whole summary of one report request: population counts, flag
/// counts, and the holders ranked by balance, stably descending.
pub struct AggregateReport {
    pub total_holders: usize,
    pub filtered_count: usize,
    pub bundle_count: usize,
    pub whale_count: usize,
    pub ranked: Vec<ClassifiedHolder>,
    pub top_k: usize,
}

/// Ranks the classified holders by raw balance, descending and stable, and
/// counts the bundle wallets and whales among them.
pub fn aggregate(classified: Vec<ClassifiedHolder>, total_holders: usize, top_k: usize) -> (r:
    AggregateReport)
    ensures
        r.total_holders == total_holders,
        r.top_k == top_k,
        r.filtered_count == classified@.len(),
        r.bundle_count == count_fresh(classified@),
        r.whale_count == count_whale(classified@),
        r.ranked@ == sort_desc(classified@),
{
    let ghost orig = classified@;
    let filtered_count = classified.len();
    let mut bundle_count: usize = 0;
    let mut whale_count: usize = 0;
    let mut j: usize = 0;
    while j < classified.len()
        invariant
            j <= classified@.len(),
            classified@ == orig,
            bundle_count == count_fresh(orig.take(j as int)),
            whale_count == count_whale(orig.take(j as int)),
        decreases classified@.len() - j,
    {
        proof {
            let t = orig.take(j + 1);
            assert(t.drop_last() =~= orig.take(j as int));
            assert(t.last() == orig[j as int]);
            lemma_counts_le_len(orig.take(j as int));
        }
        if classified[j].flags.is_fresh_wallet {
            bundle_count = bundle_count + 1;
        }
        if classified[j].flags.is_whale {
            whale_count = whale_count + 1;
        }
        j = j + 1;
    }
    proof {
        assert(orig.take(orig.len() as int) =~= orig);
    }
    let ranked = sort_by_balance_desc(classified);
    AggregateReport { total_holders, filtered_count, bundle_count, whale_count, ranked, top_k }
}

/// Sorts classified holders by raw balance, descending; holders with equal
/// balances keep their relative order.
pub fn sort_by_balance_desc(holders: Vec<ClassifiedHolder>) -> (r: Vec<ClassifiedHolder>)
    ensures
        r@ == sort_desc(holders@),
{
    let ghost orig = holders@;
    let mut v = holders;
    let mut i: usize = 0;
    proof {
        assert(orig.take(0) =~= Seq::<ClassifiedHolder>::empty());
    }
    while i < v.len()
        invariant
            i <= v@.len(),
            v@.len() == orig.len(),
            v@.take(i as int) == sort_desc(orig.take(i as int)),
            v@.skip(i as int) == orig.skip(i as int),
        decreases v@.len() - i,
    {
        let xbal = v[i].holder.balance;
        let mut p: usize = 0;
        while p < i && v[p].holder.balance >= xbal
            invariant
                p <= i,
                i < v@.len(),
                xbal == v@[i as int].holder.balance,
                forall|q: int| 0 <= q < p ==> v@[q].holder.balance >= xbal,
            decreases i - p,
        {
            p = p + 1;
        }
        let ghost w = v@;
        let ghost a = w.take(i as int);
        let x = v.remove(i);
        v.insert(p, x);
        proof {
            assert(x == w[i as int]);
            assert(x == orig[i as int]) by {
                assert(orig.skip(i as int)[0] == orig[i as int]);
            }
            let b = w.skip(i + 1);
            assert(w.remove(i as int) =~= a + b);
            let after = (a + b).insert(p as int, x);
            assert(v@ == after);
            assert(after =~= a.take(p as int) + seq![x] + a.skip(p as int) + b);
            lemma_insert_desc_at(a, x, p as int);
            assert(v@.take(i + 1) =~= a.take(p as int) + seq![x] + a.skip(p as int));
            assert(v@.take(i + 1) == insert_desc(a, x));
            let t = orig.take(i + 1);
            assert(t.drop_last() =~= orig.take(i as int));
            assert(t.last() == orig[i as int]);
            assert(v@.take(i + 1) == sort_desc(orig.take(i + 1)));
            assert(v@.skip(i + 1) =~= b);
            assert(b =~= w.skip(i as int).skip(1));
            assert(orig.skip(i + 1) =~= orig.skip(i as int).skip(1));
        }
        i = i + 1;
    }
    proof {
        assert(orig.take(orig.len() as int) =~= orig);
        assert(v@.take(v@.len() as int) =~= v@);
    }
    v
}

} // verus!
