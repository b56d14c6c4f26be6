//! The order in which the tranches of a portfolio are liquidated.

use crate::date::Date;
use vstd::prelude::*;

verus! {

/// Which tranches are liquidated first.
#[derive(PartialEq, Eq, Debug, Clone, Copy, Structural)]
pub enum WithdrawalPolicy {
    /// Oldest first.
    Fifo,
    /// Newest first.
    Lifo,
}

/// Tranche `a` is liquidated before tranche `b`: its date comes first under
/// the policy or, where both have the same date, its index is the smaller.
pub open spec fn goes_before(origins: Seq<Date>, policy: WithdrawalPolicy, a: int, b: int) -> bool {
    let dated_first = match policy {
        WithdrawalPolicy::Fifo => origins[a].precedes(origins[b]),
        WithdrawalPolicy::Lifo => origins[b].precedes(origins[a]),
    };
    dated_first || (origins[a] == origins[b] && a < b)
}

/// `order` lists every tranche of `origins` once, each before all those that
/// are liquidated after it.
pub open spec fn is_liquidation_order(
    origins: Seq<Date>,
    policy: WithdrawalPolicy,
    order: Seq<usize>,
) -> bool {
    &&& order.len() == origins.len()
    &&& forall|i: int| 0 <= i < order.len() ==> order[i] < origins.len()
    &&& forall|t: usize| t < origins.len() ==> order.contains(t)
    &&& forall|i: int, j: int|
        0 <= i < j < order.len() ==> goes_before(origins, policy, order[i] as int, order[j] as int)
}

/// Under either policy `goes_before` is a strict total order of the tranches.
pub proof fn lemma_goes_before_strict_total(
    origins: Seq<Date>,
    policy: WithdrawalPolicy,
    a: int,
    b: int,
    c: int,
)
    ensures
        !goes_before(origins, policy, a, a),
        goes_before(origins, policy, a, b) ==> !goes_before(origins, policy, b, a),
        a != b ==> goes_before(origins, policy, a, b) || goes_before(origins, policy, b, a),
        goes_before(origins, policy, a, b) && goes_before(origins, policy, b, c) ==> goes_before(
            origins,
            policy,
            a,
            c,
        ),
{
}

/// Whether tranche `a` is liquidated before tranche `b`.
fn sells_first(origins: &Vec<Date>, policy: WithdrawalPolicy, a: usize, b: usize) -> (first: bool)
    requires
        a < origins.len(),
        b < origins.len(),
    ensures
        first == goes_before(origins@, policy, a as int, b as int),
{
    let dated_first = match policy {
        WithdrawalPolicy::Fifo => origins[a] < origins[b],
        WithdrawalPolicy::Lifo => origins[b] < origins[a],
    };
    dated_first || (origins[a] == origins[b] && a < b)
}

/// The tranches of `origins` in the order in which `policy` liquidates them.
/// Tranches of one date keep the order of their indices.
pub fn liquidation_order(origins: &Vec<Date>, policy: WithdrawalPolicy) -> (order: Vec<usize>)
    ensures
        is_liquidation_order(origins@, policy, order@),
{
    let n = origins.len();
    let mut order: Vec<usize> = Vec::new();
    let mut t: usize = 0;
    while t < n
        invariant
            t <= n,
            n == origins.len(),
            order.len() == t,
            forall|i: int| 0 <= i < t ==> order[i] < t,
            forall|u: usize| u < t ==> order@.contains(u),
            forall|i: int, j: int|
                0 <= i < j < t ==> goes_before(origins@, policy, order[i] as int, order[j] as int),
        decreases n - t,
    {
        let mut p: usize = 0;
        while p < t && !sells_first(origins, policy, t, order[p])
            invariant
                p <= t,
                t < n,
                n == origins.len(),
                order.len() == t,
                forall|i: int| 0 <= i < t ==> order[i] < t,
                forall|i: int| 0 <= i < p ==> goes_before(origins@, policy, order[i] as int, t as int),
            decreases t - p,
        {
            p += 1;
        }
        let ghost before = order@;
        order.insert(p, t);
        proof {
            assert(order@[p as int] == t);
            assert forall|u: usize| u < t + 1 implies order@.contains(u) by {
                if u < t {
                    assert(before.contains(u));
                    let k = choose|k: int| 0 <= k < before.len() && before[k] == u;
                    if k < p {
                        assert(order@[k] == u);
                    } else {
                        assert(order@[k + 1] == u);
                    }
                }
            }
            assert forall|i: int, j: int| 0 <= i < j < t + 1 implies goes_before(
                origins@,
                policy,
                order[i] as int,
                order[j] as int,
            ) by {
                if i == p && j > p + 1 {
                    assert(goes_before(origins@, policy, before[p as int] as int, before[j - 1] as int));
                }
            }
        }
        t += 1;
    }
    order
}

proof fn lemma_orders_agree_below(
    origins: Seq<Date>,
    policy: WithdrawalPolicy,
    first: Seq<usize>,
    second: Seq<usize>,
    n: int,
)
    requires
        is_liquidation_order(origins, policy, first),
        is_liquidation_order(origins, policy, second),
        0 <= n <= origins.len(),
    ensures
        forall|i: int| 0 <= i < n ==> first[i] == second[i],
    decreases n,
{
    if n > 0 {
        let m = n - 1;
        lemma_orders_agree_below(origins, policy, first, second, m);
        let t = first[m];
        assert(second.contains(t));
        let j = choose|j: int| 0 <= j < second.len() && second[j] == t;
        if j < m {
            assert(goes_before(origins, policy, first[j] as int, first[m] as int));
        } else if j > m {
            let u = second[m];
            assert(first.contains(u));
            let k = choose|k: int| 0 <= k < first.len() && first[k] == u;
            assert(goes_before(origins, policy, second[m] as int, second[j] as int));
            if k < m {
                assert(goes_before(origins, policy, second[k] as int, second[m] as int));
            } else if k > m {
                assert(goes_before(origins, policy, first[m] as int, first[k] as int));
            }
        }
        assert(first[m] == second[m]);
    }
}

/// A portfolio has one liquidation order under a policy, and no other.
pub proof fn lemma_liquidation_order_unique(
    origins: Seq<Date>,
    policy: WithdrawalPolicy,
    first: Seq<usize>,
    second: Seq<usize>,
)
    requires
        is_liquidation_order(origins, policy, first),
        is_liquidation_order(origins, policy, second),
    ensures
        first == second,
{
    lemma_orders_agree_below(origins, policy, first, second, origins.len() as int);
    assert(first =~= second);
}

/// Where no two tranches have the same date, newest-first is oldest-first
/// read backwards.
pub proof fn lemma_lifo_reverses_fifo(origins: Seq<Date>, fifo: Seq<usize>, lifo: Seq<usize>)
    requires
        is_liquidation_order(origins, WithdrawalPolicy::Fifo, fifo),
        is_liquidation_order(origins, WithdrawalPolicy::Lifo, lifo),
        forall|a: int, b: int| 0 <= a < b < origins.len() ==> origins[a] != origins[b],
    ensures
        lifo == fifo.reverse(),
{
    let back = fifo.reverse();
    assert forall|t: usize| t < origins.len() implies back.contains(t) by {
        assert(fifo.contains(t));
        let k = choose|k: int| 0 <= k < fifo.len() && fifo[k] == t;
        assert(back[fifo.len() - 1 - k] == t);
    }
    assert forall|i: int, j: int| 0 <= i < j < back.len() implies goes_before(
        origins,
        WithdrawalPolicy::Lifo,
        back[i] as int,
        back[j] as int,
    ) by {
        let a = fifo.len() - 1 - j;
        let b = fifo.len() - 1 - i;
        assert(goes_before(origins, WithdrawalPolicy::Fifo, fifo[a] as int, fifo[b] as int));
        assert(fifo[a] != fifo[b]);
        if fifo[a] < fifo[b] {
            assert(origins[fifo[a] as int] != origins[fifo[b] as int]);
        } else {
            assert(origins[fifo[b] as int] != origins[fifo[a] as int]);
        }
    }
    lemma_liquidation_order_unique(origins, WithdrawalPolicy::Lifo, lifo, back);
}

/// Where two tranches have different dates, the two policies liquidate in
/// different orders.
pub proof fn lemma_policies_differ(
    origins: Seq<Date>,
    fifo: Seq<usize>,
    lifo: Seq<usize>,
    a: usize,
    b: usize,
)
    requires
        is_liquidation_order(origins, WithdrawalPolicy::Fifo, fifo),
        is_liquidation_order(origins, WithdrawalPolicy::Lifo, lifo),
        a < origins.len(),
        b < origins.len(),
        origins[a as int] != origins[b as int],
    ensures
        fifo != lifo,
{
    assert(fifo.contains(a));
    assert(fifo.contains(b));
    let i = choose|i: int| 0 <= i < fifo.len() && fifo[i] == a;
    let j = choose|j: int| 0 <= j < fifo.len() && fifo[j] == b;
    if fifo == lifo {
        if i < j {
            assert(goes_before(origins, WithdrawalPolicy::Fifo, fifo[i] as int, fifo[j] as int));
            assert(goes_before(origins, WithdrawalPolicy::Lifo, lifo[i] as int, lifo[j] as int));
        } else if j < i {
            assert(goes_before(origins, WithdrawalPolicy::Fifo, fifo[j] as int, fifo[i] as int));
            assert(goes_before(origins, WithdrawalPolicy::Lifo, lifo[j] as int, lifo[i] as int));
        }
    }
}

} // verus!
