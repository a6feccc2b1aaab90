use crate::drop::{drop_valid, total_weight, Drop, DropConfig, DropSim, Item};
use vstd::prelude::*;

verus! {

/// How many drops in a trace are of the given item.
pub open spec fn count_matching(drops: Seq<Drop>, item: Item) -> int
    decreases drops.len(),
{
    if drops.len() == 0 {
        0
    } else {
        count_matching(drops.drop_last(), item) + if drops.last().item == item {
            1int
        } else {
            0int
        }
    }
}

/// The total count accumulated over the drops of the given item in a
/// trace.
pub open spec fn sum_counts(drops: Seq<Drop>, item: Item) -> int
    decreases drops.len(),
{
    if drops.len() == 0 {
        0
    } else {
        sum_counts(drops.drop_last(), item) + if drops.last().item == item {
            drops.last().count as int
        } else {
            0int
        }
    }
}

/// Extending a trace by one drop adds one match (or none) to the match
/// count and that drop's count (or nothing) to the accumulated count.
proof fn lemma_take_step(drops: Seq<Drop>, item: Item, i: int)
    requires
        0 <= i < drops.len(),
    ensures
        count_matching(drops.take(i + 1), item) == count_matching(drops.take(i), item) + if drops[i].item
            == item {
            1int
        } else {
            0int
        },
        sum_counts(drops.take(i + 1), item) == sum_counts(drops.take(i), item) + if drops[i].item
            == item {
            drops[i].count as int
        } else {
            0int
        },
{
    assert(drops.take(i + 1).drop_last() =~= drops.take(i));
    assert(drops.take(i + 1).last() == drops[i]);
}

/// Neither metric can shrink as the trace grows.
proof fn lemma_take_le(drops: Seq<Drop>, item: Item, i: int)
    requires
        0 <= i <= drops.len(),
    ensures
        count_matching(drops.take(i), item) <= count_matching(drops, item),
        sum_counts(drops.take(i), item) <= sum_counts(drops, item),
        count_matching(drops.take(i), item) >= 0,
        sum_counts(drops.take(i), item) >= 0,
    decreases drops.len() - i,
{
    lemma_metrics_nonneg(drops.take(i), item);
    if i == drops.len() {
        assert(drops.take(i) =~= drops);
    } else {
        lemma_take_step(drops, item, i);
        lemma_take_le(drops, item, i + 1);
        lemma_metrics_nonneg(drops, item);
    }
}

/// A trace's metrics are never negative.
pub proof fn lemma_metrics_nonneg(drops: Seq<Drop>, item: Item)
    ensures
        count_matching(drops, item) >= 0,
        sum_counts(drops, item) >= 0,
    decreases drops.len(),
{
    if drops.len() > 0 {
        lemma_metrics_nonneg(drops.drop_last(), item);
    }
}

/// Represents a single speed run, in which barters are made and blazes
/// are fought. The results of bartering and fighting are stored as a
/// list of drops that can be interrogated to see exactly how lucky or
/// unlucky the run was.
#[derive(Debug, Clone)]
pub struct Run {
    pub barters: Vec<Drop>,
    pub fights: Vec<Drop>,
}

impl Run {
    /// Create a run from the results of bartering with piglins and
    /// fighting blazes.
    pub fn new(barters: Vec<Drop>, fights: Vec<Drop>) -> (r: Self)
        ensures
            r.barters@ == barters@,
            r.fights@ == fights@,
    {
        Self { barters, fights }
    }

    /// The total number of barters that were made in the run.
    pub fn total_barters(&self) -> (r: u32)
        requires
            self.barters@.len() <= u32::MAX,
        ensures
            r == self.barters@.len(),
    {
        self.barters.len() as u32
    }

    /// The number of barters that dropped ender pearls.
    pub fn successful_barters(&self) -> (r: u32)
        requires
            self.barters@.len() <= u32::MAX,
        ensures
            r == count_matching(self.barters@, Item::EnderPearl),
    {
        count_in(&self.barters, Item::EnderPearl)
    }

    /// The total number of pearls that were obtained during the run.
    pub fn total_pearls(&self) -> (r: u32)
        requires
            sum_counts(self.barters@, Item::EnderPearl) <= u32::MAX,
        ensures
            r == sum_counts(self.barters@, Item::EnderPearl),
    {
        sum_in(&self.barters, Item::EnderPearl)
    }

    /// The total number of blazes that were killed in the run.
    pub fn total_fights(&self) -> (r: u32)
        requires
            self.fights@.len() <= u32::MAX,
        ensures
            r == self.fights@.len(),
    {
        self.fights.len() as u32
    }

    /// The number of blaze fights that dropped a rod.
    pub fn successful_fights(&self) -> (r: u32)
        requires
            self.fights@.len() <= u32::MAX,
        ensures
            r == count_matching(self.fights@, Item::BlazeRod),
    {
        count_in(&self.fights, Item::BlazeRod)
    }

    /// The total number of blaze rods that were obtained during the run.
    pub fn total_rods(&self) -> (r: u32)
        requires
            sum_counts(self.fights@, Item::BlazeRod) <= u32::MAX,
        ensures
            r == sum_counts(self.fights@, Item::BlazeRod),
    {
        sum_in(&self.fights, Item::BlazeRod)
    }
}

/// How many drops in the trace are of the given item.
fn count_in(drops: &Vec<Drop>, item: Item) -> (r: u32)
    requires
        drops@.len() <= u32::MAX,
    ensures
        r == count_matching(drops@, item),
{
    let mut acc: u32 = 0;
    let mut i: usize = 0;
    while i < drops.len()
        invariant
            i <= drops@.len() <= u32::MAX,
            acc == count_matching(drops@.take(i as int), item),
        decreases drops@.len() - i,
    {
        proof {
            lemma_take_step(drops@, item, i as int);
            lemma_take_le(drops@, item, i as int + 1);
            assert(count_matching(drops@, item) <= drops@.len()) by {
                lemma_count_le_len(drops@, item);
            }
        }
        if drops[i].item == item {
            acc = acc + 1;
        }
        i = i + 1;
    }
    proof {
        assert(drops@.take(i as int) =~= drops@);
    }
    acc
}

/// The count accumulated over the drops of the given item in the trace.
fn sum_in(drops: &Vec<Drop>, item: Item) -> (r: u32)
    requires
        sum_counts(drops@, item) <= u32::MAX,
    ensures
        r == sum_counts(drops@, item),
{
    let mut acc: u32 = 0;
    let mut i: usize = 0;
    while i < drops.len()
        invariant
            i <= drops@.len(),
            sum_counts(drops@, item) <= u32::MAX,
            acc == sum_counts(drops@.take(i as int), item),
        decreases drops@.len() - i,
    {
        proof {
            lemma_take_step(drops@, item, i as int);
            lemma_take_le(drops@, item, i as int + 1);
        }
        if drops[i].item == item {
            acc = acc + drops[i].count;
        }
        i = i + 1;
    }
    proof {
        assert(drops@.take(i as int) =~= drops@);
    }
    acc
}

/// A trace cannot hold more matches than drops.
pub proof fn lemma_count_le_len(drops: Seq<Drop>, item: Item)
    ensures
        count_matching(drops, item) <= drops.len(),
    decreases drops.len(),
{
    if drops.len() > 0 {
        lemma_count_le_len(drops.drop_last(), item);
    }
}

/// The goals of a run simulation. This represents the minimum resources
/// a runner is looking for out of this run before moving on. E.G.
/// target_pearls is the number of ender pearls the runner wants before
/// they stop trading with piglins.
#[derive(Debug, Clone, Copy, PartialEq, Eq, Structural)]
pub struct RunGoals {
    pub target_pearls: u32,
    pub target_rods: u32,
}

/// A Minecraft speed run simulation: one pearl target and one rod
/// target. The drop simulators are handed in per call, so their random
/// sources stay with the calling thread.
#[derive(Debug, Clone, Copy, PartialEq, Eq, Structural)]
pub struct RunSim {
    pub pearl_target: u32,
    pub rods_target: u32,
}

/// A trace that one farming loop can produce: every draw comes from the
/// drop list, no draw was made once the cumulative count of the farmed
/// item had reached the minimum, and the trace reaches the minimum
/// unless it ran into the farming draw budget - a bound of `u64::MAX`
/// draws that exists so that the loop provably ends, and that no real
/// machine can exhaust.
pub open spec fn farm_trace_ok(drops: Seq<Drop>, list: Seq<DropConfig>, item: Item, minimum: int) -> bool {
    &&& forall|i: int| 0 <= i < drops.len() ==> drop_valid(#[trigger] drops[i], list)
    &&& minimum <= 0 ==> drops.len() == 0
    &&& drops.len() > 0 ==> sum_counts(drops.drop_last(), item) < minimum
    &&& minimum > 0 ==> drops.len() > 0
    &&& sum_counts(drops, item) >= minimum || drops.len() >= u64::MAX
}

impl RunSim {
    /// Creates a minecraft speed run simulator.
    pub fn new(pearl_target: u32, rods_target: u32) -> (r: Self)
        ensures
            r == (RunSim { pearl_target, rods_target }),
    {
        Self { pearl_target, rods_target }
    }

    /// Simulate a run: barter for pearls, then fight for rods.
    pub fn run(&self, barter_drop_sim: &mut DropSim, blaze_drop_sim: &mut DropSim) -> (r: Run)
        requires
            old(barter_drop_sim).wf(),
            total_weight(old(barter_drop_sim).catalogue()) > 0,
            old(blaze_drop_sim).wf(),
            total_weight(old(blaze_drop_sim).catalogue()) > 0,
        ensures
            final(barter_drop_sim).wf(),
            final(barter_drop_sim).catalogue() == old(barter_drop_sim).catalogue(),
            final(blaze_drop_sim).wf(),
            final(blaze_drop_sim).catalogue() == old(blaze_drop_sim).catalogue(),
            farm_trace_ok(
                r.barters@,
                old(barter_drop_sim).catalogue(),
                Item::EnderPearl,
                self.pearl_target as int,
            ),
            farm_trace_ok(
                r.fights@,
                old(blaze_drop_sim).catalogue(),
                Item::BlazeRod,
                self.rods_target as int,
            ),
    {
        let barters = self.barter_for_pearls(barter_drop_sim);
        let fights = self.fight_for_rods(blaze_drop_sim);
        Run::new(barters, fights)
    }

    /// Barter for pearls until the pearl target is reached.
    pub fn barter_for_pearls(&self, barter_drop_sim: &mut DropSim) -> (drops: Vec<Drop>)
        requires
            old(barter_drop_sim).wf(),
            total_weight(old(barter_drop_sim).catalogue()) > 0,
        ensures
            final(barter_drop_sim).wf(),
            final(barter_drop_sim).catalogue() == old(barter_drop_sim).catalogue(),
            farm_trace_ok(
                drops@,
                old(barter_drop_sim).catalogue(),
                Item::EnderPearl,
                self.pearl_target as int,
            ),
    {
        RunSim::farm_for_item(barter_drop_sim, Item::EnderPearl, self.pearl_target)
    }

    /// Fight blazes until the rod target is reached.
    pub fn fight_for_rods(&self, blaze_drop_sim: &mut DropSim) -> (drops: Vec<Drop>)
        requires
            old(blaze_drop_sim).wf(),
            total_weight(old(blaze_drop_sim).catalogue()) > 0,
        ensures
            final(blaze_drop_sim).wf(),
            final(blaze_drop_sim).catalogue() == old(blaze_drop_sim).catalogue(),
            farm_trace_ok(
                drops@,
                old(blaze_drop_sim).catalogue(),
                Item::BlazeRod,
                self.rods_target as int,
            ),
    {
        RunSim::farm_for_item(blaze_drop_sim, Item::BlazeRod, self.rods_target)
    }

    /// Farm for an item from a drop simulator with a minimum target
    /// before we're done. Every draw, matching or not, is kept in the
    /// returned trace. The loop draws until the cumulative count of the
    /// farmed item reaches the minimum; if the drop list gives the item
    /// probability zero, it spins through its whole draw budget -
    /// supplying a list where the farmed item can drop is the caller's
    /// obligation, and the budget only exists so that the loop provably
    /// ends.
    pub fn farm_for_item(drop_sim: &mut DropSim, item: Item, minimum: u32) -> (drops: Vec<Drop>)
        requires
            old(drop_sim).wf(),
            total_weight(old(drop_sim).catalogue()) > 0,
        ensures
            final(drop_sim).wf(),
            final(drop_sim).catalogue() == old(drop_sim).catalogue(),
            farm_trace_ok(drops@, old(drop_sim).catalogue(), item, minimum as int),
    {
        let ghost list = old(drop_sim).catalogue();
        let mut drops: Vec<Drop> = Vec::new();
        let mut count: u64 = 0;
        let mut draws: u64 = 0;
        while count < minimum as u64 && draws < u64::MAX
            invariant
                drop_sim.wf(),
                drop_sim.catalogue() == list,
                total_weight(list) > 0,
                draws == drops@.len(),
                minimum == 0 ==> drops@.len() == 0,
                count == sum_counts(drops@, item),
                count < minimum as u64 + u32::MAX as u64,
                drops@.len() > 0 ==> sum_counts(drops@.drop_last(), item) < minimum,
                forall|i: int| 0 <= i < drops@.len() ==> drop_valid(#[trigger] drops@[i], list),
            decreases u64::MAX - draws,
        {
            let d = drop_sim.get_drop();
            if d.item == item {
                count = count + d.count as u64;
            }
            proof {
                assert(drops@.push(d).drop_last() =~= drops@);
            }
            drops.push(d);
            draws = draws + 1;
        }
        drops
    }
}

} // verus!
