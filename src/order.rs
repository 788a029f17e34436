//! Sorting a block's triggers into dispatch order, and what that order guarantees.
use vstd::prelude::*;

use crate::trigger::{log_index_key, log_tx_index, trigger_order, EthereumTrigger};
use crate::values::{ord_of, pow2_128};
use std::cmp::Ordering;

verus! {

/// Where a trigger goes in `s` when `s` is already in dispatch order: after every
/// trigger that does not sort after it, so that ties keep their arrival order.
pub open spec fn insert_in_order(s: Seq<EthereumTrigger>, x: EthereumTrigger) -> Seq<EthereumTrigger>
    decreases s.len(),
{
    if s.len() == 0 {
        seq![x]
    } else if trigger_order(s.last(), x) == Ordering::Greater {
        insert_in_order(s.drop_last(), x).push(s.last())
    } else {
        s.push(x)
    }
}

/// The stable sort of `s` by dispatch order.
pub open spec fn sorted_triggers(s: Seq<EthereumTrigger>) -> Seq<EthereumTrigger>
    decreases s.len(),
{
    if s.len() == 0 {
        s
    } else {
        insert_in_order(sorted_triggers(s.drop_last()), s.last())
    }
}

/// No trigger of `s` sorts after one that follows it.
pub open spec fn in_order(s: Seq<EthereumTrigger>) -> bool {
    forall|i: int, j: int|
        0 <= i < j < s.len() ==> trigger_order(s[i], s[j]) != Ordering::Greater
}

/// Of two logs of one block, the one of the earlier transaction has the smaller log index.
pub open spec fn logs_agree(a: EthereumTrigger, b: EthereumTrigger) -> bool {
    match (a, b) {
        (EthereumTrigger::Log(x), EthereumTrigger::Log(y)) => log_tx_index(x) < log_tx_index(y)
            ==> log_index_key(x) < log_index_key(y),
        _ => true,
    }
}

/// What holds of the triggers drawn from one block: every log carries its positions,
/// and log indices grow with transaction indices.
pub open spec fn from_one_block(s: Seq<EthereumTrigger>) -> bool {
    &&& forall|a: EthereumTrigger| #[trigger] s.contains(a) ==> a.well_formed()
    &&& forall|a: EthereumTrigger, b: EthereumTrigger|
        #[trigger] s.contains(a) && #[trigger] s.contains(b) ==> logs_agree(a, b)
}

spec fn u256_bound() -> int {
    pow2_128() * pow2_128()
}

spec fn tx_unit() -> int {
    4 * u256_bound()
}

spec fn block_key() -> int {
    pow2_128() * u256_bound()
}

spec fn tx_of(t: EthereumTrigger) -> int {
    match t {
        EthereumTrigger::Call(c) => c.transaction_index as int,
        EthereumTrigger::Log(l) => log_tx_index(l),
        EthereumTrigger::Block(..) => 0,
    }
}

spec fn offset_of(t: EthereumTrigger) -> int {
    match t {
        EthereumTrigger::Call(_) => 2 * u256_bound(),
        EthereumTrigger::Log(l) => log_index_key(l),
        EthereumTrigger::Block(..) => 0,
    }
}

/// The dispatch order as one number: block triggers last, the rest by transaction,
/// a transaction's logs by log index and before its calls.
spec fn order_key(t: EthereumTrigger) -> int {
    match t {
        EthereumTrigger::Block(..) => block_key(),
        _ => tx_of(t) * tx_unit() + offset_of(t),
    }
}

proof fn lemma_key_bounds(t: EthereumTrigger)
    requires
        t.well_formed(),
    ensures
        !(t is Block) ==> 0 <= offset_of(t) < tx_unit(),
        !(t is Block) ==> 0 <= tx_of(t) < pow2_128(),
        !(t is Block) ==> order_key(t) < block_key(),
{
    let p = pow2_128();
    if let EthereumTrigger::Log(l) = t {
        let v = l.log_index.unwrap();
        let (h, lo) = (v.hi as int, v.lo as int);
        assert(h * p + lo < p * p) by (nonlinear_arith)
            requires
                0 <= h < p,
                0 <= lo < p,
        ;
    }
    if !(t is Block) {
        let x = tx_of(t);
        let o = offset_of(t);
        assert(x * (4 * (p * p)) + o < p * (p * p)) by (nonlinear_arith)
            requires
                0 <= x <= 0xffff_ffff_ffff_ffff,
                0 <= o < 4 * (p * p),
                p == 0xffff_ffff_ffff_ffff_ffff_ffff_ffff_ffff + 1,
        ;
    }
}

proof fn lemma_scaled_order(xa: int, oa: int, xb: int, ob: int, u: int)
    requires
        0 <= oa < u,
        0 <= ob < u,
        xa < xb,
    ensures
        xa * u + oa < xb * u + ob,
{
    assert(xa * u + u <= xb * u) by (nonlinear_arith)
        requires
            xa < xb,
            u > 0,
    ;
}

/// For two triggers of one block, the dispatch order is the order of their keys.
proof fn lemma_order_by_key(a: EthereumTrigger, b: EthereumTrigger)
    requires
        a.well_formed(),
        b.well_formed(),
        logs_agree(a, b),
        logs_agree(b, a),
    ensures
        trigger_order(a, b) == ord_of(order_key(a), order_key(b)),
{
    lemma_key_bounds(a);
    lemma_key_bounds(b);
    if !(a is Block) && !(b is Block) {
        let u = tx_unit();
        if tx_of(a) < tx_of(b) {
            lemma_scaled_order(tx_of(a), offset_of(a), tx_of(b), offset_of(b), u);
        } else if tx_of(b) < tx_of(a) {
            lemma_scaled_order(tx_of(b), offset_of(b), tx_of(a), offset_of(a), u);
        }
    }
}

spec fn key_sorted(s: Seq<EthereumTrigger>) -> bool {
    forall|i: int, j: int| 0 <= i < j < s.len() ==> order_key(s[i]) <= order_key(s[j])
}

/// Inserting keeps every trigger and adds `x`.
proof fn lemma_insert_multiset(s: Seq<EthereumTrigger>, x: EthereumTrigger)
    ensures
        insert_in_order(s, x).to_multiset() =~= s.to_multiset().insert(x),
        forall|i: int|
            0 <= i < insert_in_order(s, x).len() ==> s.contains(#[trigger] insert_in_order(s, x)[i])
                || insert_in_order(s, x)[i] == x,
    decreases s.len(),
{
    broadcast use vstd::seq_lib::group_seq_properties;

    if s.len() == 0 {
        assert(seq![x] =~= Seq::<EthereumTrigger>::empty().push(x));
    } else if trigger_order(s.last(), x) == Ordering::Greater {
        let d = s.drop_last();
        lemma_insert_multiset(d, x);
        assert(s =~= d.push(s.last()));
        let r = insert_in_order(s, x);
        assert forall|i: int| 0 <= i < r.len() implies s.contains(#[trigger] r[i]) || r[i] == x by {
            if i < r.len() - 1 {
                if d.contains(r[i]) {
                    let k = choose|k: int| 0 <= k < d.len() && d[k] == r[i];
                    assert(s[k] == r[i]);
                }
            } else {
                assert(s[s.len() - 1] == r[i]);
            }
        }
    } else {
        let r = s.push(x);
        assert forall|i: int| 0 <= i < r.len() implies s.contains(#[trigger] r[i]) || r[i] == x by {
            if i < s.len() {
                assert(s[i] == r[i]);
            }
        }
    }
}

/// Inserting into a key-sorted sequence of one block's triggers keeps it key-sorted.
proof fn lemma_insert_key_sorted(s: Seq<EthereumTrigger>, x: EthereumTrigger)
    requires
        key_sorted(s),
        x.well_formed(),
        forall|a: EthereumTrigger|
            #[trigger] s.contains(a) ==> a.well_formed() && logs_agree(a, x) && logs_agree(x, a),
    ensures
        key_sorted(insert_in_order(s, x)),
    decreases s.len(),
{
    if s.len() > 0 {
        let last = s.last();
        assert(s[s.len() - 1] == last);
        assert(s.contains(last));
        lemma_order_by_key(last, x);
        if trigger_order(last, x) == Ordering::Greater {
            let d = s.drop_last();
            assert forall|a: EthereumTrigger| d.contains(a) implies s.contains(a) by {
                let k = choose|k: int| 0 <= k < d.len() && d[k] == a;
                assert(s[k] == a);
            }
            lemma_insert_key_sorted(d, x);
            lemma_insert_multiset(d, x);
            let r = insert_in_order(d, x);
            assert forall|i: int| 0 <= i < r.len() implies order_key(#[trigger] r[i]) <= order_key(
                last,
            ) by {
                if d.contains(r[i]) {
                    let k = choose|k: int| 0 <= k < d.len() && d[k] == r[i];
                    assert(s[k] == r[i]);
                }
            }
        }
    }
}

/// Sorting keeps every trigger, and the result of sorting one block's triggers is key-sorted.
proof fn lemma_sorted_facts(s: Seq<EthereumTrigger>)
    ensures
        sorted_triggers(s).to_multiset() =~= s.to_multiset(),
        forall|i: int|
            0 <= i < sorted_triggers(s).len() ==> s.contains(#[trigger] sorted_triggers(s)[i]),
        from_one_block(s) ==> key_sorted(sorted_triggers(s)),
    decreases s.len(),
{
    broadcast use vstd::seq_lib::group_seq_properties;

    if s.len() > 0 {
        let d = s.drop_last();
        let x = s.last();
        lemma_sorted_facts(d);
        let sd = sorted_triggers(d);
        lemma_insert_multiset(sd, x);
        assert(s =~= d.push(x));
        assert(s.contains(x));
        assert forall|a: EthereumTrigger| d.contains(a) implies s.contains(a) by {
            let k = choose|k: int| 0 <= k < d.len() && d[k] == a;
            assert(s[k] == a);
        }
        assert forall|a: EthereumTrigger| sd.contains(a) implies d.contains(a) by {
            let k = choose|k: int| 0 <= k < sd.len() && sd[k] == a;
            assert(d.contains(sd[k]));
        }
        let r = sorted_triggers(s);
        assert forall|i: int| 0 <= i < r.len() implies s.contains(#[trigger] r[i]) by {
            if r[i] != x {
                assert(sd.contains(r[i]));
            }
        }
        if from_one_block(s) {
            assert(from_one_block(d));
            lemma_insert_key_sorted(sd, x);
        }
    }
}

/// A sequence already in dispatch order is left as it is by sorting.
proof fn lemma_sort_in_order(s: Seq<EthereumTrigger>)
    requires
        in_order(s),
    ensures
        sorted_triggers(s) == s,
    decreases s.len(),
{
    if s.len() > 0 {
        let d = s.drop_last();
        assert(in_order(d));
        lemma_sort_in_order(d);
        assert(s =~= d.push(s.last()));
        if d.len() > 0 {
            assert(trigger_order(s[d.len() - 1], s[s.len() - 1]) != Ordering::Greater);
        }
    }
}

/// Sorting the triggers of one block puts them in dispatch order and keeps every one of
/// them; sorting the result again leaves it unchanged.
pub proof fn lemma_sort_total(s: Seq<EthereumTrigger>)
    requires
        from_one_block(s),
    ensures
        in_order(sorted_triggers(s)),
        sorted_triggers(s).to_multiset() == s.to_multiset(),
        sorted_triggers(sorted_triggers(s)) == sorted_triggers(s),
{
    lemma_sorted_facts(s);
    let r = sorted_triggers(s);
    assert forall|i: int, j: int| 0 <= i < j < r.len() implies trigger_order(r[i], r[j])
        != Ordering::Greater by {
        assert(s.contains(r[i]));
        assert(s.contains(r[j]));
        lemma_order_by_key(r[i], r[j]);
    }
    lemma_sort_in_order(r);
}

/// After sorting one block's triggers, a log comes before every call of its transaction.
pub proof fn lemma_log_before_call(s: Seq<EthereumTrigger>, i: int, j: int)
    requires
        from_one_block(s),
        0 <= i < sorted_triggers(s).len(),
        0 <= j < sorted_triggers(s).len(),
        sorted_triggers(s)[i] is Log,
        sorted_triggers(s)[j] is Call,
        sorted_triggers(s)[i]->Log_0.transaction_index == Some(
            sorted_triggers(s)[j]->Call_0.transaction_index,
        ),
    ensures
        i < j,
{
    lemma_sort_total(s);
    let r = sorted_triggers(s);
    if j < i {
        assert(trigger_order(r[j], r[i]) != Ordering::Greater);
    }
}

/// After sorting one block's triggers, every block trigger comes after every log and call.
pub proof fn lemma_block_last(s: Seq<EthereumTrigger>, i: int, j: int)
    requires
        from_one_block(s),
        0 <= i < sorted_triggers(s).len(),
        0 <= j < sorted_triggers(s).len(),
        !(sorted_triggers(s)[i] is Block),
        sorted_triggers(s)[j] is Block,
    ensures
        i < j,
{
    lemma_sort_total(s);
    let r = sorted_triggers(s);
    if j < i {
        assert(trigger_order(r[j], r[i]) != Ordering::Greater);
    }
}

fn insert_trigger(out: &mut Vec<EthereumTrigger>, x: EthereumTrigger)
    requires
        x.well_formed(),
        forall|i: int| 0 <= i < old(out)@.len() ==> (#[trigger] old(out)@[i]).well_formed(),
    ensures
        final(out)@ == insert_in_order(old(out)@, x),
{
    let ghost s = out@;
    let mut k: usize = out.len();
    let mut done = false;
    assert(s.take(s.len() as int) =~= s);
    assert(s.skip(s.len() as int) =~= Seq::<EthereumTrigger>::empty());
    assert(insert_in_order(s, x) =~= insert_in_order(s.take(k as int), x) + s.skip(k as int));
    while !done && k > 0
        invariant
            out@ == s,
            0 <= k <= s.len(),
            x.well_formed(),
            forall|i: int| 0 <= i < s.len() ==> (#[trigger] s[i]).well_formed(),
            insert_in_order(s, x) == insert_in_order(s.take(k as int), x) + s.skip(k as int),
            done ==> k > 0 && trigger_order(s[k - 1], x) != Ordering::Greater,
        decreases k + (if done { 0int } else { 1int }),
    {
        match out[k - 1].cmp(&x) {
            Ordering::Greater => {
                let ghost t = s.take(k as int);
                assert(t.drop_last() =~= s.take(k - 1));
                assert(t.last() == s[k - 1]);
                assert(s.skip(k - 1) =~= seq![s[k - 1]] + s.skip(k as int));
                assert(insert_in_order(s.take(k - 1), x).push(s[k - 1]) + s.skip(k as int)
                    =~= insert_in_order(s.take(k - 1), x) + s.skip(k - 1));
                k = k - 1;
            },
            _ => {
                done = true;
            },
        }
    }
    if k == 0 {
        assert(s.take(0) =~= Seq::<EthereumTrigger>::empty());
    } else {
        assert(s.take(k as int).last() == s[k - 1]);
    }
    out.insert(k, x);
    assert(out@ =~= insert_in_order(s.take(k as int), x) + s.skip(k as int));
}

/// Sorts a block's triggers into dispatch order. The sort is stable: triggers that
/// compare equal keep the order in which they came.
pub fn sort_triggers(triggers: Vec<EthereumTrigger>) -> (r: Vec<EthereumTrigger>)
    requires
        forall|i: int| 0 <= i < triggers@.len() ==> (#[trigger] triggers@[i]).well_formed(),
    ensures
        r@ == sorted_triggers(triggers@),
{
    let ghost orig = triggers@;
    let mut rest = triggers;
    let mut out: Vec<EthereumTrigger> = Vec::new();
    let ghost mut n: int = 0;
    assert(orig.take(0) =~= Seq::<EthereumTrigger>::empty());
    assert(orig.skip(0) =~= orig);
    while rest.len() > 0
        invariant
            0 <= n <= orig.len(),
            rest@ == orig.skip(n),
            out@ == sorted_triggers(orig.take(n)),
            forall|i: int| 0 <= i < orig.len() ==> (#[trigger] orig[i]).well_formed(),
        decreases rest@.len(),
    {
        let x = rest.remove(0);
        proof {
            lemma_sorted_facts(orig.take(n));
            assert forall|i: int| 0 <= i < out@.len() implies (#[trigger] out@[i]).well_formed() by {
                assert(orig.take(n).contains(out@[i]));
                let k = choose|k: int| 0 <= k < orig.take(n).len() && orig.take(n)[k] == out@[i];
                assert(orig[k] == out@[i]);
            }
            assert(x == orig[n]);
            assert(orig.take(n + 1).drop_last() =~= orig.take(n));
            assert(orig.take(n + 1).last() == orig[n]);
            assert(orig.skip(n + 1) =~= orig.skip(n).remove(0));
        }
        insert_trigger(&mut out, x);
        proof {
            n = n + 1;
        }
    }
    assert(orig.take(n) =~= orig);
    out
}

} // verus!
