use vstd::prelude::*;

use crate::arith::{pow10, pow10_u128, lemma_pow10_mono};
use crate::types::TokenHolder;

verus! {

/// A holder passes the filter when its displayed amount
/// `balance / 10^decimals` is at least `min_ui_amount`, stated exactly over
/// the integers: `balance >= min_ui_amount * 10^decimals`. A threshold of
/// zero keeps every holder, as an explicit short-circuit.
pub open spec fn spec_meets_min(balance: u64, decimals: u8, min_ui_amount: u64) -> bool {
    ||| min_ui_amount == 0
    ||| balance as nat >= min_ui_amount as nat * pow10(decimals as nat)
}

/// The holders whose displayed amount reaches the threshold, in input order.
pub open spec fn spec_filtered(s: Seq<TokenHolder>, min_ui_amount: u64) -> Seq<TokenHolder> {
    s.filter(|h: TokenHolder| spec_meets_min(h.balance, h.decimals, min_ui_amount))
}

/// Decides `displayed amount >= min_ui_amount` without floating point.
pub fn meets_min_amount(balance: u64, decimals: u8, min_ui_amount: u64) -> (r: bool)
    ensures
        r == spec_meets_min(balance, decimals, min_ui_amount),
{
    if min_ui_amount == 0 {
        true
    } else if decimals > 19 {
        proof {
            crate::arith::lemma_pow10_20();
            lemma_pow10_mono(20, decimals as nat);
            assert(min_ui_amount as nat * pow10(decimals as nat) >= 1 * pow10(decimals as nat))
                by (nonlinear_arith)
                requires
                    min_ui_amount >= 1,
            ;
        }
        false
    } else {
        let p = pow10_u128(decimals as u32);
        proof {
            crate::arith::lemma_pow10_19();
            lemma_pow10_mono(decimals as nat, 19);
            assert((min_ui_amount as u128) * p <= u128::MAX) by (nonlinear_arith)
                requires
                    (min_ui_amount as u128) < 0x10000000000000000,
                    p < 0x10000000000000000,
            ;
        }
        (balance as u128) >= (min_ui_amount as u128) * p
    }
}

/// Keeps the holders whose displayed amount reaches `min_ui_amount`,
/// preserving their order. With a threshold of zero it is the identity.
pub fn filter_by_minimum_ui_amount(holders: Vec<TokenHolder>, min_ui_amount: u64) -> (r: Vec<
    TokenHolder,
>)
    ensures
        r@ == spec_filtered(holders@, min_ui_amount),
        min_ui_amount == 0 ==> r@ == holders@,
{
    let ghost orig = holders@;
    let ghost pred = |h: TokenHolder| spec_meets_min(h.balance, h.decimals, min_ui_amount);
    let mut rest = holders;
    let mut out: Vec<TokenHolder> = Vec::new();
    let ghost mut i: int = 0;
    proof {
        assert(orig.take(0) =~= Seq::<TokenHolder>::empty());
        reveal(Seq::filter);
    }
    while rest.len() > 0
        invariant
            0 <= i <= orig.len(),
            rest@ == orig.skip(i),
            out@ == orig.take(i).filter(pred),
            pred == (|h: TokenHolder| spec_meets_min(h.balance, h.decimals, min_ui_amount)),
        decreases rest@.len(),
    {
        proof {
            assert(orig.skip(i).len() > 0);
        }
        let h = rest.remove(0);
        proof {
            assert(h == orig[i]);
            assert(rest@ =~= orig.skip(i + 1));
        }
        let keep = meets_min_amount(h.balance, h.decimals, min_ui_amount);
        let ghost prev = out@;
        if keep {
            out.push(h);
        }
        proof {
            reveal(Seq::filter);
            let t = orig.take(i + 1);
            assert(t.drop_last() =~= orig.take(i));
            assert(t.last() == orig[i]);
            assert(t.filter(pred) == orig.take(i).filter(pred) + (if pred(orig[i]) {
                seq![orig[i]]
            } else {
                Seq::<TokenHolder>::empty()
            }));
            if keep {
                assert(out@ =~= prev + seq![orig[i]]);
            } else {
                assert(out@ =~= prev + Seq::<TokenHolder>::empty());
            }
            i = i + 1;
        }
    }
    proof {
        assert(orig.take(orig.len() as int) =~= orig);
        if min_ui_amount == 0 {
            lemma_filter_of_satisfying(orig, pred);
        }
    }
    out
}

/// Every element a filter keeps satisfies its predicate, so filtering keeps
/// a list fixed once every element satisfies the predicate.
proof fn lemma_filter_of_satisfying<A>(s: Seq<A>, pred: spec_fn(A) -> bool)
    requires
        forall|j: int| 0 <= j < s.len() ==> pred(#[trigger] s[j]),
    ensures
        s.filter(pred) == s,
    decreases s.len(),
{
    reveal(Seq::filter);
    if s.len() > 0 {
        lemma_filter_of_satisfying(s.drop_last(), pred);
        assert(pred(s.last()));
        assert(s.filter(pred) == s.drop_last().filter(pred) + seq![s.last()]);
        assert(s.drop_last() + seq![s.last()] =~= s);
    }
}

/// The threshold filter is idempotent: filtering an already-filtered list
/// with the same threshold yields the same list.
pub proof fn lemma_filter_idempotent(s: Seq<TokenHolder>, min_ui_amount: u64)
    ensures
        spec_filtered(spec_filtered(s, min_ui_amount), min_ui_amount) == spec_filtered(
            s,
            min_ui_amount,
        ),
{
    let pred = |h: TokenHolder| spec_meets_min(h.balance, h.decimals, min_ui_amount);
    let f = s.filter(pred);
    assert forall|j: int| 0 <= j < f.len() implies pred(#[trigger] f[j]) by {
        s.lemma_filter_pred(pred, j);
    }
    lemma_filter_of_satisfying(f, pred);
}

} // verus!
