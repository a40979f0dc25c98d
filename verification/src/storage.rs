//! What the bot remembers from one run to the next.
use vstd::prelude::*;

use crate::address::Address;
use crate::models::Position;
use crate::table::{
    distinct_keys, holds, lemma_table_at, lemma_table_dom, lemma_table_update, note, place_of, put,
    table,
};

verus! {

/// The state as it is kept in a file.
#[derive(Debug)]
pub struct StateFile {
    pub last_scanned_block: u64,
    pub alerted_pools: Vec<Address>,
    /// Positions by their token id.
    pub positions: Vec<(u64, Position)>,
    pub tpsl_alerted: Vec<u64>,
    /// The block of the last volume-spike alert of each pool.
    pub last_spike_alert_block: Vec<(Address, u64)>,
}

impl StateFile {
    /// The state before anything was remembered.
    pub open spec fn is_initial(self) -> bool {
        &&& self.last_scanned_block == 0
        &&& self.alerted() == Set::<Address>::empty()
        &&& self.known_positions() == Map::<u64, Position>::empty()
        &&& self.tpsl() == Set::<u64>::empty()
        &&& self.spikes() == Map::<Address, u64>::empty()
    }

    pub open spec fn alerted(self) -> Set<Address> {
        self.alerted_pools@.to_set()
    }

    pub open spec fn known_positions(self) -> Map<u64, Position> {
        table(self.positions@)
    }

    pub open spec fn tpsl(self) -> Set<u64> {
        self.tpsl_alerted@.to_set()
    }

    pub open spec fn spikes(self) -> Map<Address, u64> {
        table(self.last_spike_alert_block@)
    }

    /// Whether nothing is kept twice.
    pub open spec fn wf(self) -> bool {
        &&& self.alerted_pools@.no_duplicates()
        &&& distinct_keys(self.positions@)
        &&& self.tpsl_alerted@.no_duplicates()
        &&& distinct_keys(self.last_spike_alert_block@)
    }

    /// Whether two states remember the same.
    pub open spec fn same_as(self, other: StateFile) -> bool {
        &&& self.last_scanned_block == other.last_scanned_block
        &&& self.alerted() == other.alerted()
        &&& self.known_positions() == other.known_positions()
        &&& self.tpsl() == other.tpsl()
        &&& self.spikes() == other.spikes()
    }
}

/// The entries that are still open, in order.
pub open spec fn open_of(s: Seq<(u64, Position)>) -> Seq<Position>
    decreases s.len(),
{
    if s.len() == 0 {
        Seq::empty()
    } else if s.last().1.closed {
        open_of(s.drop_last())
    } else {
        open_of(s.drop_last()).push(s.last().1)
    }
}

/// A position once it is closed.
pub open spec fn closed_position(p: Position) -> Position {
    Position { closed: true, ..p }
}

/// Whether the last alert was fewer than `cooldown` blocks ago.
pub open spec fn too_soon(last: u64, current: u64, cooldown: u64) -> bool {
    if current >= last {
        current - last < cooldown
    } else {
        0 < cooldown
    }
}

/// What the bot remembers.
#[derive(Debug)]
pub struct Storage {
    pub state: StateFile,
}

fn rebuilt_set<K: crate::table::Key>(from: &Vec<K>) -> (r: Vec<K>)
    ensures
        r@.no_duplicates(),
        r@.to_set() == from@.to_set(),
{
    let mut r: Vec<K> = Vec::new();
    let mut i: usize = 0;
    while i < from.len()
        invariant
            i <= from@.len(),
            r@.no_duplicates(),
            r@.to_set() == from@.take(i as int).to_set(),
        decreases from@.len() - i,
    {
        note(&mut r, from[i]);
        proof {
            let a = from@.take(i as int);
            let b = from@.take(i + 1);
            assert forall|x: K| b.to_set().contains(x) <==> a.to_set().insert(
                from@[i as int],
            ).contains(x) by {
                if b.contains(x) {
                    let j = choose|j: int| 0 <= j < b.len() && b[j] == x;
                    if j < i {
                        assert(a[j] == x);
                    }
                }
                if a.contains(x) {
                    let j = choose|j: int| 0 <= j < a.len() && a[j] == x;
                    assert(b[j] == x);
                }
                assert(b[i as int] == from@[i as int]);
            }
            assert(b.to_set() =~= a.to_set().insert(from@[i as int]));
        }
        i = i + 1;
    }
    assert(from@.take(i as int) =~= from@);
    r
}

impl Storage {
    /// The remembered state; the initial one where there is none.
    pub fn load_or_default(kept: Option<StateFile>) -> (r: Storage)
        ensures
            r.state.wf(),
            match kept {
                Some(state) => r.state.same_as(state),
                None => r.state.is_initial(),
            },
    {
        match kept {
            Some(state) => {
                let mut positions: Vec<(u64, Position)> = Vec::new();
                let mut i: usize = 0;
                while i < state.positions.len()
                    invariant
                        i <= state.positions@.len(),
                        distinct_keys(positions@),
                        table(positions@) == table(state.positions@.take(i as int)),
                    decreases state.positions@.len() - i,
                {
                    put(&mut positions, state.positions[i].0, state.positions[i].1.clone());
                    assert(state.positions@.take(i + 1).drop_last() =~= state.positions@.take(
                        i as int,
                    ));
                    i = i + 1;
                }
                assert(state.positions@.take(i as int) =~= state.positions@);
                let mut spikes: Vec<(Address, u64)> = Vec::new();
                let mut j: usize = 0;
                while j < state.last_spike_alert_block.len()
                    invariant
                        j <= state.last_spike_alert_block@.len(),
                        distinct_keys(spikes@),
                        table(spikes@) == table(state.last_spike_alert_block@.take(j as int)),
                    decreases state.last_spike_alert_block@.len() - j,
                {
                    put(
                        &mut spikes,
                        state.last_spike_alert_block[j].0,
                        state.last_spike_alert_block[j].1,
                    );
                    assert(state.last_spike_alert_block@.take(j + 1).drop_last()
                        =~= state.last_spike_alert_block@.take(j as int));
                    j = j + 1;
                }
                assert(state.last_spike_alert_block@.take(j as int)
                    =~= state.last_spike_alert_block@);
                Storage {
                    state: StateFile {
                        last_scanned_block: state.last_scanned_block,
                        alerted_pools: rebuilt_set(&state.alerted_pools),
                        positions,
                        tpsl_alerted: rebuilt_set(&state.tpsl_alerted),
                        last_spike_alert_block: spikes,
                    },
                }
            },
            None => {
                let r = Storage {
                    state: StateFile {
                        last_scanned_block: 0,
                        alerted_pools: Vec::new(),
                        positions: Vec::new(),
                        tpsl_alerted: Vec::new(),
                        last_spike_alert_block: Vec::new(),
                    },
                };
                assert(r.state.alerted() =~= Set::<Address>::empty());
                assert(r.state.tpsl() =~= Set::<u64>::empty());
                r
            },
        }
    }

    pub fn last_scanned_block(&self) -> (r: u64)
        ensures
            r == self.state.last_scanned_block,
    {
        self.state.last_scanned_block
    }

    pub fn set_last_scanned_block(&mut self, block: u64)
        requires
            old(self).state.wf(),
        ensures
            final(self).state.wf(),
            final(self).state == (StateFile { last_scanned_block: block, ..old(self).state }),
    {
        self.state.last_scanned_block = block;
    }

    pub fn already_alerted(&self, pool: Address) -> (r: bool)
        ensures
            r == self.state.alerted().contains(pool),
    {
        holds(&self.state.alerted_pools, pool)
    }

    pub fn mark_alerted(&mut self, pool: Address)
        requires
            old(self).state.wf(),
        ensures
            final(self).state.wf(),
            final(self).state.alerted() == old(self).state.alerted().insert(pool),
            final(self).state == (StateFile {
                alerted_pools: final(self).state.alerted_pools,
                ..old(self).state
            }),
    {
        note(&mut self.state.alerted_pools, pool);
    }

    /// Tracks a position under its token id.
    pub fn add_position(&mut self, position: Position)
        requires
            old(self).state.wf(),
        ensures
            final(self).state.wf(),
            final(self).state.known_positions() == old(self).state.known_positions().insert(
                position.token_id,
                position,
            ),
            final(self).state == (StateFile {
                positions: final(self).state.positions,
                ..old(self).state
            }),
    {
        put(&mut self.state.positions, position.token_id, position);
    }

    /// The positions that are not closed.
    pub fn open_positions(&self) -> (r: Vec<Position>)
        ensures
            r@ == open_of(self.state.positions@),
    {
        let mut r: Vec<Position> = Vec::new();
        let mut i: usize = 0;
        while i < self.state.positions.len()
            invariant
                i <= self.state.positions@.len(),
                r@ == open_of(self.state.positions@.take(i as int)),
            decreases self.state.positions@.len() - i,
        {
            let entry = &self.state.positions[i];
            if !entry.1.closed {
                r.push(entry.1.clone());
            }
            assert(self.state.positions@.take(i + 1).drop_last() =~= self.state.positions@.take(
                i as int,
            ));
            i = i + 1;
        }
        assert(self.state.positions@.take(i as int) =~= self.state.positions@);
        r
    }

    pub fn get_position(&self, token_id: u64) -> (r: Option<Position>)
        requires
            self.state.wf(),
        ensures
            r == (if self.state.known_positions().dom().contains(token_id) {
                Some(self.state.known_positions()[token_id])
            } else {
                None
            }),
    {
        let i: usize = place_of(&self.state.positions, token_id);
        proof {
            lemma_table_dom(self.state.positions@, token_id);
        }
        if i < self.state.positions.len() {
            proof {
                lemma_table_at(self.state.positions@, i as int);
            }
            Some(self.state.positions[i].1.clone())
        } else {
            None
        }
    }

    /// Notes that a position is closed, if it is on record.
    pub fn mark_position_closed(&mut self, token_id: u64)
        requires
            old(self).state.wf(),
        ensures
            final(self).state.wf(),
            final(self).state.known_positions() == (if old(self).state.known_positions().dom().contains(token_id) {
                old(self).state.known_positions().insert(
                    token_id,
                    closed_position(old(self).state.known_positions()[token_id]),
                )
            } else {
                old(self).state.known_positions()
            }),
            final(self).state == (StateFile {
                positions: final(self).state.positions,
                ..old(self).state
            }),
    {
        let i: usize = place_of(&self.state.positions, token_id);
        proof {
            lemma_table_dom(self.state.positions@, token_id);
        }
        if i < self.state.positions.len() {
            let ghost before = self.state.positions@;
            let mut p: Position = self.state.positions[i].1.clone();
            p.closed = true;
            proof {
                lemma_table_at(before, i as int);
                lemma_table_update(before, i as int, p);
            }
            self.state.positions.set(i, (token_id, p));
        }
    }

    pub fn already_tpsl_alerted(&self, token_id: u64) -> (r: bool)
        ensures
            r == self.state.tpsl().contains(token_id),
    {
        holds(&self.state.tpsl_alerted, token_id)
    }

    pub fn mark_tpsl_alerted(&mut self, token_id: u64)
        requires
            old(self).state.wf(),
        ensures
            final(self).state.wf(),
            final(self).state.tpsl() == old(self).state.tpsl().insert(token_id),
            final(self).state == (StateFile {
                tpsl_alerted: final(self).state.tpsl_alerted,
                ..old(self).state
            }),
    {
        note(&mut self.state.tpsl_alerted, token_id);
    }

    /// Whether the pool's last spike alert is too recent for another one.
    pub fn spike_alert_on_cooldown(
        &self,
        pool: Address,
        current_block: u64,
        cooldown_blocks: u64,
    ) -> (r: bool)
        requires
            self.state.wf(),
        ensures
            r == (self.state.spikes().dom().contains(pool) && too_soon(
                self.state.spikes()[pool],
                current_block,
                cooldown_blocks,
            )),
    {
        let i: usize = place_of(&self.state.last_spike_alert_block, pool);
        proof {
            lemma_table_dom(self.state.last_spike_alert_block@, pool);
        }
        if i < self.state.last_spike_alert_block.len() {
            proof {
                lemma_table_at(self.state.last_spike_alert_block@, i as int);
            }
            let last: u64 = self.state.last_spike_alert_block[i].1;
            if current_block >= last {
                current_block - last < cooldown_blocks
            } else {
                0 < cooldown_blocks
            }
        } else {
            false
        }
    }

    pub fn mark_spike_alerted(&mut self, pool: Address, current_block: u64)
        requires
            old(self).state.wf(),
        ensures
            final(self).state.wf(),
            final(self).state.spikes() == old(self).state.spikes().insert(pool, current_block),
            final(self).state == (StateFile {
                last_spike_alert_block: final(self).state.last_spike_alert_block,
                ..old(self).state
            }),
    {
        put(&mut self.state.last_spike_alert_block, pool, current_block);
    }
}

/// A position is among the open ones exactly if it is on record and not closed.
pub proof fn law_open_positions(s: Seq<(u64, Position)>, p: Position)
    requires
        distinct_keys(s),
    ensures
        open_of(s).contains(p) <==> !p.closed && exists|i: int|
            0 <= i < s.len() && (#[trigger] s[i]).1 == p,
    decreases s.len(),
{
    if s.len() > 0 {
        let t = s.drop_last();
        assert forall|a: int, b: int|
            #![trigger t[a], t[b]]
            0 <= a < t.len() && 0 <= b < t.len() && a != b implies t[a].0 != t[b].0 by {
            assert(s[a].0 != s[b].0);
        }
        law_open_positions(t, p);
        let o = open_of(s);
        let before = open_of(t);
        if o.contains(p) {
            let k = choose|k: int| 0 <= k < o.len() && o[k] == p;
            if k < before.len() {
                assert(before[k] == p);
                let i = choose|i: int| 0 <= i < t.len() && (#[trigger] t[i]).1 == p;
                assert(s[i].1 == p);
            } else {
                assert(s[s.len() - 1].1 == p);
            }
        }
        if !p.closed && exists|i: int| 0 <= i < s.len() && (#[trigger] s[i]).1 == p {
            let i = choose|i: int| 0 <= i < s.len() && (#[trigger] s[i]).1 == p;
            if i < t.len() {
                assert(t[i].1 == p);
                let k = choose|k: int| 0 <= k < before.len() && before[k] == p;
                assert(o[k] == p);
            } else {
                assert(o[before.len() as int] == p);
            }
        }
    } else {
        assert(!open_of(s).contains(p));
    }
}

/// Once an alert of a pool is noted at a block, the pool is on cooldown for the
/// next `cooldown` blocks, and no longer.
pub proof fn law_cooldown_ends(last: u64, current: u64, cooldown: u64)
    requires
        current >= last,
    ensures
        too_soon(last, current, cooldown) <==> current < last + cooldown,
{
}

/// Closing a position changes nothing of its record but that it is closed.
pub proof fn law_closing_keeps_the_record(p: Position)
    ensures
        closed_position(p).closed,
        closed_position(p).token_id == p.token_id,
        closed_position(p).pool_address == p.pool_address,
        closed_position(p).pool_created_block == p.pool_created_block,
        closed_position(p).token0 == p.token0 && closed_position(p).token1 == p.token1,
        closed_position(p).token0_symbol == p.token0_symbol,
        closed_position(p).token1_symbol == p.token1_symbol,
        closed_position(p).fee == p.fee,
        closed_position(p).tick_lower == p.tick_lower,
        closed_position(p).tick_upper == p.tick_upper,
        closed_position(p).entry_cost_usd == p.entry_cost_usd,
        closed_position(p).entry_timestamp == p.entry_timestamp,
        closed_position(p).mint_tx_hash == p.mint_tx_hash,
{
}

} // verus!
