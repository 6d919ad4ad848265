//! Load balancing: an ordered, rotating view over the per-node connection
//! managers. `init` installs the node list once; `next_index` picks the node
//! for the next query; `size` and `node` expose the list for linear scans.
//!
//! The round-robin strategy is proved fair: over any whole number of cycles
//! each node is picked equally often.

use vstd::prelude::*;

verus! {

/// Ordered view over all node connection managers, with a rotation rule.
pub trait LoadBalancingStrategy<N>: Sized {
    /// The installed nodes, in order.
    spec fn nodes_view(&self) -> Seq<N>;

    /// Installs the node list; called once, before any query.
    fn init(&mut self, nodes: Vec<N>)
        ensures
            final(self).nodes_view() == nodes@,
    ;

    /// The number of installed nodes.
    fn size(&self) -> (r: usize)
        ensures
            r == self.nodes_view().len(),
    ;

    /// The index the next call of `next_index` picks, when a node exists.
    spec fn spec_next_index(&self) -> nat;

    /// The strategy's state after one pick: the rotation advanced.
    spec fn spec_after_pick(&self) -> Self;

    /// Picks the node for the next query; `None` exactly when no node is
    /// installed. The pick is the strategy's stated next index, and the
    /// rotation advances to its stated next state.
    fn next_index(&mut self) -> (r: Option<usize>)
        ensures
            final(self).nodes_view() == old(self).nodes_view(),
            r is Some <==> old(self).nodes_view().len() > 0,
            r is Some ==> r->0 < old(self).nodes_view().len(),
            r is Some ==> r->0 as nat == old(self).spec_next_index() && *final(self) == old(
                self,
            ).spec_after_pick(),
    ;

    /// The node at `i`.
    fn node(&self, i: usize) -> (r: &N)
        requires
            i < self.nodes_view().len(),
        ensures
            *r == self.nodes_view()[i as int],
    ;
}

/// Round robin: nodes are picked in order, wrapping around.
pub struct RoundRobinLoadBalancingStrategy<N> {
    nodes: Vec<N>,
    counter: usize,
}

impl<N> RoundRobinLoadBalancingStrategy<N> {
    /// The rotation position: the next pick is `counter % len`.
    pub closed spec fn spec_counter(&self) -> nat {
        self.counter as nat
    }

    /// An empty strategy, to be `init`ed with the cluster's nodes.
    pub fn new() -> (r: RoundRobinLoadBalancingStrategy<N>)
        ensures
            r.nodes_view() == Seq::<N>::empty(),
            r.spec_counter() == 0,
    {
        RoundRobinLoadBalancingStrategy { nodes: Vec::new(), counter: 0 }
    }
}

impl<N> LoadBalancingStrategy<N> for RoundRobinLoadBalancingStrategy<N> {
    closed spec fn nodes_view(&self) -> Seq<N> {
        self.nodes@
    }

    closed spec fn spec_next_index(&self) -> nat {
        spec_rr_pick(self.counter as nat, self.nodes@.len())
    }

    closed spec fn spec_after_pick(&self) -> Self {
        RoundRobinLoadBalancingStrategy {
            nodes: self.nodes,
            counter: (((self.counter as nat) + 1) % self.nodes@.len()) as usize,
        }
    }

    fn init(&mut self, nodes: Vec<N>)
        ensures
            final(self).nodes_view() == nodes@,
    {
        self.nodes = nodes;
    }

    fn size(&self) -> (r: usize)
        ensures
            r == self.nodes_view().len(),
    {
        self.nodes.len()
    }

    /// Picks `counter % len` and advances the rotation by one.
    fn next_index(&mut self) -> (r: Option<usize>)
        ensures
            final(self).nodes_view() == old(self).nodes_view(),
            r is Some <==> old(self).nodes_view().len() > 0,
            r is Some ==> r->0 < old(self).nodes_view().len(),
            old(self).nodes_view().len() > 0 ==> r is Some && r->0 as nat == spec_rr_pick(
                old(self).spec_counter(),
                old(self).nodes_view().len(),
            ) && final(self).spec_counter() == (old(self).spec_counter() + 1) % old(
                self,
            ).nodes_view().len(),
    {
        let n = self.nodes.len();
        if n == 0 {
            return Option::None;
        }
        let pick = self.counter % n;
        self.counter = if pick + 1 >= n {
            0
        } else {
            pick + 1
        };
        proof {
            let c = old(self).counter as int;
            let ni = n as int;
            assert((c + 1) % ni == (c % ni + 1) % ni) by (nonlinear_arith)
                requires
                    ni > 0,
            ;
            let pk = c % ni;
            vstd::arithmetic::div_mod::lemma_mod_bound(c, ni);
            assert(0 <= pk < ni);
            if pk + 1 == ni {
                assert((pk + 1) % ni == 0) by (nonlinear_arith)
                    requires
                        pk + 1 == ni,
                        ni > 0,
                ;
            } else {
                assert((pk + 1) % ni == pk + 1) by (nonlinear_arith)
                    requires
                        0 <= pk + 1 < ni,
                ;
            }
        }
        Some(pick)
    }

    fn node(&self, i: usize) -> (r: &N) {
        &self.nodes[i]
    }
}

/// The node round robin picks at rotation position `c` over `n` nodes.
pub open spec fn spec_rr_pick(c: nat, n: nat) -> nat
    recommends
        n > 0,
{
    c % n
}

/// How many of the picks at positions `c, c+1, …, c+m−1` fall on node `j`.
pub open spec fn spec_rr_count(c: nat, n: nat, m: nat, j: nat) -> nat
    decreases m,
{
    if m == 0 {
        0
    } else {
        (if spec_rr_pick(c, n) == j {
            1nat
        } else {
            0nat
        }) + spec_rr_count((c + 1) as nat, n, (m - 1) as nat, j)
    }
}

/// Counting over back-to-back windows adds up.
proof fn lemma_rr_count_split(c: nat, n: nat, a: nat, b: nat, j: nat)
    ensures
        spec_rr_count(c, n, (a + b) as nat, j) == spec_rr_count(c, n, a, j) + spec_rr_count(
            (c + a) as nat,
            n,
            b,
            j,
        ),
    decreases a,
{
    if a == 0 {
    } else {
        lemma_rr_count_split((c + 1) as nat, n, (a - 1) as nat, b, j);
    }
}

/// Within one full cycle of `n` consecutive picks, node `j` is picked
/// exactly once.
proof fn lemma_rr_count_one_cycle(c: nat, n: nat, j: nat)
    requires
        n > 0,
        j < n,
    ensures
        spec_rr_count(c, n, n, j) == 1,
{
    let d: nat = if j >= c % n {
        (j - c % n) as nat
    } else {
        (j + n - c % n) as nat
    };
    assert(d < n);
    assert forall|i: nat| i < n implies (#[trigger] spec_rr_pick((c + i) as nat, n) == j <==> i
        == d) by {
        vstd::arithmetic::div_mod::lemma_add_mod_noop(c as int, i as int, n as int);
        vstd::arithmetic::div_mod::lemma_small_mod(i, n);
        assert((c + i) % n == ((c % n) + i) % n);
        if i == d {
            assert(((c % n) + d) % n == j) by (nonlinear_arith)
                requires
                    n > 0,
                    j < n,
                    c % n < n,
                    d == if j >= c % n {
                        j - c % n
                    } else {
                        j + n - c % n
                    },
            ;
        } else {
            assert(((c % n) + i) % n != j) by (nonlinear_arith)
                requires
                    n > 0,
                    j < n,
                    i < n,
                    c % n < n,
                    i != d,
                    d == if j >= c % n {
                        j - c % n
                    } else {
                        j + n - c % n
                    },
            ;
        }
    }
    lemma_rr_count_prefix(c, n, n, j, d);
}

/// With exactly one matching position `d`, the count over the first `m`
/// picks is one once `m` passes `d`, and zero before.
proof fn lemma_rr_count_prefix(c: nat, n: nat, m: nat, j: nat, d: nat)
    requires
        n > 0,
        d < n,
        m <= n,
        forall|i: nat| i < m ==> (#[trigger] spec_rr_pick((c + i) as nat, n) == j <==> i == d),
    ensures
        spec_rr_count(c, n, m, j) == if m > d {
            1nat
        } else {
            0nat
        },
    decreases m,
{
    if m == 0 {
    } else {
        assert(spec_rr_pick((c + 0) as nat, n) == j <==> 0 == d);
        assert forall|i: nat| i < m - 1 implies (#[trigger] spec_rr_pick(((c + 1) + i) as nat, n)
            == j <==> i == (d - 1)) by {
            assert(spec_rr_pick((c + (i + 1)) as nat, n) == j <==> i + 1 == d);
        }
        if d == 0 {
            assert forall|i: nat| i < m - 1 implies #[trigger] spec_rr_pick(
                ((c + 1) + i) as nat,
                n,
            ) != j by {
                assert(spec_rr_pick((c + (i + 1)) as nat, n) == j <==> i + 1 == d);
            }
            lemma_rr_count_no_match((c + 1) as nat, n, (m - 1) as nat, j);
        } else {
            lemma_rr_count_prefix((c + 1) as nat, n, (m - 1) as nat, j, (d - 1) as nat);
        }
    }
}

/// With no matching position in the window, nothing is counted.
proof fn lemma_rr_count_no_match(c: nat, n: nat, m: nat, j: nat)
    requires
        forall|i: nat| i < m ==> #[trigger] spec_rr_pick((c + i) as nat, n) != j,
    ensures
        spec_rr_count(c, n, m, j) == 0,
    decreases m,
{
    if m == 0 {
    } else {
        assert(spec_rr_pick((c + 0) as nat, n) != j);
        assert forall|i: nat| i < m - 1 implies #[trigger] spec_rr_pick(((c + 1) + i) as nat, n)
            != j by {
            assert(spec_rr_pick((c + (i + 1)) as nat, n) != j);
        }
        lemma_rr_count_no_match((c + 1) as nat, n, (m - 1) as nat, j);
    }
}

/// Round-robin fairness: over `k` whole cycles of `n` nodes — for three
/// healthy nodes, thirty calls are ten cycles — every node is picked exactly
/// `k` times.
pub proof fn lemma_round_robin_fair(c: nat, n: nat, k: nat, j: nat)
    requires
        n > 0,
        j < n,
    ensures
        spec_rr_count(c, n, (k * n) as nat, j) == k,
    decreases k,
{
    if k == 0 {
        assert(k * n == 0) by (nonlinear_arith)
            requires
                k == 0,
        ;
    } else {
        assert(k * n == (k - 1) * n + n) by (nonlinear_arith);
        lemma_rr_count_split(c, n, ((k - 1) * n) as nat, n, j);
        lemma_round_robin_fair(c, n, (k - 1) as nat, j);
        lemma_rr_count_one_cycle((c + (k - 1) * n) as nat, n, j);
    }
}

} // verus!
