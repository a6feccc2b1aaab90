use rand::Rng;
use vstd::prelude::*;

verus! {

/// An item that can be part of a drop table. These are Minecraft items.
/// The list only contains the items involved in piglin barters from 1.16.1
/// and blaze rods, plus a sentinel for "no item".
#[derive(Debug, Copy, Clone, PartialEq, Eq, Structural)]
pub enum Item {
    Nothing,
    Book,
    IronBoots,
    Potion,
    SplashPotion,
    IronNugget,
    Quartz,
    GlowstoneDust,
    MagmaCream,
    EnderPearl,
    String,
    FireCharge,
    Gravel,
    Leather,
    MetherBrick,
    Obsidian,
    CryingObsidian,
    SoulSand,
    BlazeRod,
}

/// The configuration for a drop, but not the drop itself: the item, its
/// weight in the weighted choice, and the inclusive range of counts a
/// single drop of it can yield.
#[derive(Debug, Copy, Clone, PartialEq, Eq, Structural)]
pub struct DropConfig {
    pub item: Item,
    pub weight: u32,
    pub min_count: u32,
    pub max_count: u32,
}

impl DropConfig {
    /// Creates a drop config.
    pub fn new(item: Item, weight: u32, min_count: u32, max_count: u32) -> (c: Self)
        ensures
            c == (DropConfig { item, weight, min_count, max_count }),
    {
        Self { item, weight, min_count, max_count }
    }
}

/// An item drop. The roll is the exact roll that was made that selected
/// this item from the drop list.
#[derive(Debug, Copy, Clone, PartialEq, Eq, Structural)]
pub struct Drop {
    pub roll: u32,
    pub item: Item,
    pub count: u32,
}

/// The sum of the weights of the first `i` entries of a drop list.
pub open spec fn weight_prefix(list: Seq<DropConfig>, i: int) -> int
    decreases i,
{
    if i <= 0 {
        0
    } else {
        weight_prefix(list, i - 1) + list[i - 1].weight
    }
}

/// The total weight of a drop list: the number of distinct rolls.
pub open spec fn total_weight(list: Seq<DropConfig>) -> int {
    weight_prefix(list, list.len() as int)
}

/// Entry `i` owns roll `roll`: the weights accumulated strictly before it
/// do not exceed the roll, and adding its own weight does.
pub open spec fn selects(list: Seq<DropConfig>, roll: int, i: int) -> bool {
    &&& 0 <= i < list.len()
    &&& weight_prefix(list, i) <= roll
    &&& roll < weight_prefix(list, i + 1)
}

/// The index of the first entry whose accumulated weight exceeds `roll`,
/// scanning from entry `i` on.
pub open spec fn chosen_from(list: Seq<DropConfig>, roll: int, i: int) -> int
    decreases list.len() - i,
{
    if i < 0 || i >= list.len() {
        i
    } else if roll < weight_prefix(list, i + 1) {
        i
    } else {
        chosen_from(list, roll, i + 1)
    }
}

/// The entry that a roll selects: the first one whose accumulated weight
/// exceeds the roll.
pub open spec fn chosen_index(list: Seq<DropConfig>, roll: int) -> int {
    chosen_from(list, roll, 0)
}

/// Every entry's count range is ordered, so that drawing a count from it
/// cannot fail.
pub open spec fn catalogue_wf(list: Seq<DropConfig>) -> bool {
    forall|i: int| 0 <= i < list.len() ==> list[i].min_count <= list[i].max_count
}

/// A drop that the sampler can produce from a drop list: the roll is a
/// real roll, the item is the one that roll selects, and the count lies
/// in that entry's range.
pub open spec fn drop_valid(d: Drop, list: Seq<DropConfig>) -> bool {
    &&& d.roll < total_weight(list)
    &&& {
        let i = chosen_index(list, d.roll as int);
        &&& d.item == list[i].item
        &&& list[i].min_count <= d.count <= list[i].max_count
    }
}

/// Accumulated weights only grow along the list.
pub proof fn lemma_weight_prefix_mono(list: Seq<DropConfig>, i: int, j: int)
    requires
        i <= j,
    ensures
        weight_prefix(list, i) <= weight_prefix(list, j),
    decreases j - i,
{
    if i < j {
        lemma_weight_prefix_mono(list, i, j - 1);
    }
}

/// An entry that owns a roll is the entry chosen for that roll, wherever
/// the scan starts at or before it with its accumulated weight not past
/// the roll.
proof fn lemma_chosen_from_selects(list: Seq<DropConfig>, roll: int, i: int, j: int)
    requires
        selects(list, roll, i),
        0 <= j <= i,
        weight_prefix(list, j) <= roll,
    ensures
        chosen_from(list, roll, j) == i,
    decreases i - j,
{
    if j < i {
        lemma_weight_prefix_mono(list, j + 1, i);
        lemma_chosen_from_selects(list, roll, i, j + 1);
    }
}

#[verifier::external_type_specification]
#[verifier::external_body]
pub struct ExThreadRng(rand::rngs::ThreadRng);

/// Relies on rand::thread_rng: a handle to the calling thread's lazily
/// initialized random number generator.
#[verifier::external_body]
fn fresh_rng() -> rand::rngs::ThreadRng {
    rand::thread_rng()
}

/// Relies on rand::Rng::gen_range over `0..bound`: a draw uniformly
/// distributed on that range, so below `bound`; it panics only on an
/// empty range, which `bound >= 1` rules out.
#[verifier::external_body]
fn sample_below(rng: &mut rand::rngs::ThreadRng, bound: u32) -> (r: u32)
    requires
        bound >= 1,
    ensures
        r < bound,
{
    rng.gen_range(0..bound)
}

/// Relies on rand::Rng::gen_range over `low..=high`: a draw uniformly
/// distributed on that inclusive range; it panics only on an empty
/// range, which `low <= high` rules out.
#[verifier::external_body]
fn sample_between(rng: &mut rand::rngs::ThreadRng, low: u32, high: u32) -> (r: u32)
    requires
        low <= high,
    ensures
        low <= r <= high,
{
    rng.gen_range(low..=high)
}

/// An item drop simulator. Uses a drop list and uniform random number
/// generation to select drops: a roll picks the entry by weight, then a
/// count is drawn from the entry's range.
#[derive(Debug)]
pub struct DropSim {
    rng: rand::rngs::ThreadRng,
    drop_list: Vec<DropConfig>,
    max_roll: u32,
}

impl DropSim {
    /// The drop list this simulator draws from.
    pub closed spec fn catalogue(&self) -> Seq<DropConfig> {
        self.drop_list@
    }

    /// The cached total weight agrees with the drop list, and every
    /// entry's count range is ordered.
    pub closed spec fn wf(&self) -> bool {
        &&& self.max_roll == total_weight(self.drop_list@)
        &&& catalogue_wf(self.drop_list@)
    }

    /// Creates a drop simulator over the given drop list, with a fresh
    /// random source owned by the calling thread.
    pub fn new(drop_list: Vec<DropConfig>) -> (s: Self)
        requires
            total_weight(drop_list@) <= u32::MAX,
            catalogue_wf(drop_list@),
        ensures
            s.wf(),
            s.catalogue() == drop_list@,
    {
        let ghost list = drop_list@;
        let mut max_roll: u32 = 0;
        let mut i: usize = 0;
        while i < drop_list.len()
            invariant
                i <= list.len(),
                drop_list@ == list,
                total_weight(list) <= u32::MAX,
                max_roll == weight_prefix(list, i as int),
            decreases list.len() - i,
        {
            proof {
                lemma_weight_prefix_mono(list, i + 1, list.len() as int);
            }
            max_roll = max_roll + drop_list[i].weight;
            i = i + 1;
        }
        Self { rng: fresh_rng(), drop_list, max_roll }
    }

    /// Gets an item drop using the drop list: a roll below the total
    /// weight selects the entry whose accumulated weight first exceeds
    /// it, and the count is drawn from that entry's inclusive range.
    /// Only the random source changes.
    pub fn get_drop(&mut self) -> (d: Drop)
        requires
            old(self).wf(),
            total_weight(old(self).catalogue()) > 0,
        ensures
            final(self).wf(),
            final(self).catalogue() == old(self).catalogue(),
            drop_valid(d, old(self).catalogue()),
    {
        let ghost list = self.drop_list@;
        let roll = sample_below(&mut self.rng, self.max_roll);
        let n = self.drop_list.len();
        let mut idx: usize = 0;
        let mut acc: u32 = 0;
        proof {
            assert(list.len() > 0) by {
                if list.len() == 0 {
                    assert(total_weight(list) == 0);
                }
            }
            lemma_weight_prefix_mono(list, 1, list.len() as int);
        }
        while acc + self.drop_list[idx].weight <= roll
            invariant
                self.drop_list@ == list,
                self.max_roll == total_weight(list),
                catalogue_wf(list),
                roll < total_weight(list),
                n == list.len(),
                0 <= idx < n,
                acc == weight_prefix(list, idx as int),
                weight_prefix(list, idx as int + 1) <= total_weight(list),
                acc <= roll,
            decreases list.len() - idx,
        {
            acc = acc + self.drop_list[idx].weight;
            idx = idx + 1;
            proof {
                lemma_weight_prefix_mono(list, idx as int, list.len() as int);
                assert(idx < list.len()) by {
                    if idx >= list.len() {
                        lemma_weight_prefix_mono(list, list.len() as int, idx as int);
                    }
                }
                lemma_weight_prefix_mono(list, idx as int + 1, list.len() as int);
            }
        }
        proof {
            lemma_chosen_from_selects(list, roll as int, idx as int, 0);
        }
        let entry = self.drop_list[idx];
        let count = sample_between(&mut self.rng, entry.min_count, entry.max_count);
        Drop { roll, item: entry.item, count }
    }
}

} // verus!
