//! The choice of an upstream server: weighted round-robin.

use crate::config::UpstreamConfig;
use vstd::prelude::*;

verus! {

/// A server of an upstream.
#[derive(Debug, Clone)]
pub struct UpstreamEntry {
    pub addr: String,
    pub weight: u32,
}

/// `n` times the index `i`.
pub open spec fn repeated(i: int, n: nat) -> Seq<int> {
    Seq::new(n, |k: int| i)
}

/// The order in which the servers take their turns: the index of every
/// server, as many times as the server weighs, in the order of the servers.
/// A server of weight zero never has a turn, and where every weight is zero
/// nobody has.
pub open spec fn expanded(weights: Seq<u32>) -> Seq<int>
    decreases weights.len(),
{
    if weights.len() == 0 {
        Seq::<int>::empty()
    } else {
        expanded(weights.drop_last()) + repeated(weights.len() - 1, weights.last() as nat)
    }
}

/// Nobody has a turn exactly where every server weighs zero.
pub proof fn lemma_no_turn_without_weight(weights: Seq<u32>)
    ensures
        expanded(weights).len() == 0 <==> forall|i: int|
            0 <= i < weights.len() ==> weights[i] == 0,
    decreases weights.len(),
{
    if weights.len() > 0 {
        let front = weights.drop_last();
        lemma_no_turn_without_weight(front);
        assert(expanded(weights).len() == expanded(front).len() + weights.last());
        if expanded(weights).len() == 0 {
            assert forall|i: int| 0 <= i < weights.len() implies weights[i] == 0 by {
                if i < front.len() {
                    assert(front[i] == weights[i]);
                }
            }
        }
        if forall|i: int| 0 <= i < weights.len() ==> weights[i] == 0 {
            assert forall|i: int| 0 <= i < front.len() implies front[i] == 0 by {
                assert(front[i] == weights[i]);
            }
        }
    }
}

/// The weights of the servers.
pub open spec fn weights_of(servers: Seq<UpstreamEntry>) -> Seq<u32> {
    servers.map_values(|s: UpstreamEntry| s.weight)
}

/// The servers of one upstream, and whose turn it is.
pub struct UpstreamSelector {
    pub name: String,
    pub servers: Vec<UpstreamEntry>,
    /// The number of selections made so far, wrapping around.
    pub counter: usize,
    /// The order of the turns, as indices into `servers`.
    pub weighted_indices: Vec<usize>,
}

impl UpstreamSelector {
    /// The turns are those that the weights of the servers give.
    pub open spec fn wf(&self) -> bool {
        &&& self.weighted_indices@.len() == expanded(weights_of(self.servers@)).len()
        &&& forall|k: int|
            0 <= k < self.weighted_indices@.len() ==> #[trigger] self.weighted_indices@[k]
                == expanded(weights_of(self.servers@))[k]
        &&& forall|k: int|
            0 <= k < self.weighted_indices@.len() ==> (#[trigger] self.weighted_indices@[k])
                < self.servers@.len()
    }

    /// The selector of an upstream as it is configured, at its first turn.
    pub fn from_config(config: &UpstreamConfig) -> (s: UpstreamSelector)
        ensures
            s.wf(),
            s.name@ == config.name@,
            s.counter == 0,
            s.servers@.len() == config.servers@.len(),
            forall|i: int|
                0 <= i < s.servers@.len() ==> (#[trigger] s.servers@[i]).addr@
                    == config.servers@[i].addr@ && s.servers@[i].weight == config.servers@[i].weight,
    {
        let mut servers: Vec<UpstreamEntry> = Vec::new();
        let mut i: usize = 0;
        while i < config.servers.len()
            invariant
                i <= config.servers.len(),
                servers@.len() == i,
                forall|k: int|
                    0 <= k < i ==> (#[trigger] servers@[k]).addr@ == config.servers@[k].addr@
                        && servers@[k].weight == config.servers@[k].weight,
            decreases config.servers.len() - i,
        {
            servers.push(
                UpstreamEntry {
                    addr: config.servers[i].addr.clone(),
                    weight: config.servers[i].weight,
                },
            );
            i += 1;
        }
        let ghost weights = weights_of(servers@);
        let mut weighted: Vec<usize> = Vec::new();
        let mut i: usize = 0;
        proof {
            assert(weights.take(0) =~= Seq::<u32>::empty());
        }
        while i < servers.len()
            invariant
                i <= servers.len(),
                weights == weights_of(servers@),
                weighted@.len() == expanded(weights.take(i as int)).len(),
                forall|k: int|
                    0 <= k < weighted@.len() ==> #[trigger] weighted@[k] == expanded(
                        weights.take(i as int),
                    )[k],
                forall|k: int| 0 <= k < weighted@.len() ==> (#[trigger] weighted@[k]) < i,
            decreases servers.len() - i,
        {
            let weight = servers[i].weight;
            let ghost before = expanded(weights.take(i as int));
            proof {
                assert(weights.take(i + 1).drop_last() =~= weights.take(i as int));
                assert(weights.take(i + 1).last() == weight);
                assert forall|k: int| 0 <= k < before.len() implies (#[trigger] before[k]) < i by {
                    assert(weighted@[k] == before[k]);
                }
            }
            let mut n: u32 = 0;
            while n < weight
                invariant
                    n <= weight,
                    i < servers.len(),
                    weighted@.len() == before.len() + n,
                    forall|k: int|
                        0 <= k < weighted@.len() ==> #[trigger] weighted@[k] == (before + repeated(
                            i as int,
                            n as nat,
                        ))[k],
                    forall|k: int| 0 <= k < before.len() ==> (#[trigger] before[k]) < i,
                decreases weight - n,
            {
                weighted.push(i);
                n += 1;
            }
            proof {
                assert forall|k: int| 0 <= k < weighted@.len() implies (#[trigger] weighted@[k])
                    < i + 1 by {
                    assert(weighted@[k] == (before + repeated(i as int, weight as nat))[k]);
                }
            }
            i += 1;
        }
        proof {
            assert(weights.take(servers.len() as int) =~= weights);
        }
        UpstreamSelector { name: config.name.clone(), servers, counter: 0, weighted_indices: weighted }
    }

    /// The server whose turn it is, where any server has a turn.
    pub open spec fn current(&self) -> Option<Seq<char>> {
        if self.weighted_indices@.len() == 0 {
            None
        } else {
            Some(
                self.servers@[self.weighted_indices@[self.counter as int
                    % self.weighted_indices@.len() as int] as int].addr@,
            )
        }
    }

    /// The address of the server whose turn it is; the turn passes on. An
    /// upstream without servers, or whose servers all weigh zero, gives
    /// `None`.
    pub fn select(&mut self) -> (r: Option<String>)
        requires
            old(self).wf(),
        ensures
            final(self).wf(),
            final(self).servers == old(self).servers,
            final(self).weighted_indices == old(self).weighted_indices,
            final(self).name == old(self).name,
            final(self).counter == (if old(self).counter == usize::MAX {
                0
            } else {
                old(self).counter + 1
            }),
            match r {
                Some(addr) => old(self).current() == Some(addr@),
                None => old(self).current() is None,
            },
    {
        if self.weighted_indices.len() == 0 {
            self.counter = self.counter.wrapping_add(1);
            return None;
        }
        let idx = self.counter % self.weighted_indices.len();
        self.counter = self.counter.wrapping_add(1);
        let server_idx = self.weighted_indices[idx];
        Some(self.servers[server_idx].addr.clone())
    }

    /// The number of servers.
    pub fn server_count(&self) -> (n: usize)
        ensures
            n == self.servers@.len(),
    {
        self.servers.len()
    }
}

} // verus!
