use crate::drop::{catalogue_wf, total_weight, DropConfig, Item};
use crate::error::McSimError;
use crate::stats::{
    ea_fp, find_entry, find_from, has_item, BlazeRodDistribution, EnderPearlDistribution,
    NegBinomialParams, ATTEMPTS_SCALE,
};
use vstd::prelude::*;

verus! {

/// Holds a list of drops and a model of the distribution of those
/// drops. See: [barter_drop_list] and [blaze_drop_list].
#[derive(Debug, Clone)]
pub struct DropList<D: Clone> {
    list: Vec<DropConfig>,
    distribution: Option<D>,
}

impl<D: Clone> DropList<D> {
    /// The drop configs this list holds.
    pub closed spec fn spec_list(&self) -> Seq<DropConfig> {
        self.list@
    }

    /// The distribution model, when its construction succeeded.
    pub closed spec fn spec_distribution(&self) -> Option<D> {
        self.distribution
    }

    /// Creates a drop list with a distribution; a failed distribution
    /// is kept as its absence.
    fn new(list: Vec<DropConfig>, distribution: Result<D, McSimError>) -> (r: DropList<D>)
        ensures
            r.spec_list() == list@,
            r.spec_distribution() == (match distribution {
                Ok(d) => Some(d),
                Err(_) => None::<D>,
            }),
    {
        let d = match distribution {
            Ok(d) => Some(d),
            Err(_) => None,
        };
        DropList { list, distribution: d }
    }

    /// The list of drop configs, used by drop sims to pick what item to
    /// drop.
    pub fn list(&self) -> (r: &Vec<DropConfig>)
        ensures
            r@ == self.spec_list(),
    {
        &self.list
    }

    /// A clone of the list of drop configs, used by drop sims to pick
    /// what item to drop.
    pub fn list_clone(&self) -> (r: Vec<DropConfig>)
        ensures
            r@ == self.spec_list(),
    {
        let mut out: Vec<DropConfig> = Vec::new();
        let mut i: usize = 0;
        while i < self.list.len()
            invariant
                i <= self.list@.len(),
                out@ == self.list@.take(i as int),
            decreases self.list@.len() - i,
        {
            out.push(self.list[i]);
            proof {
                assert(out@ =~= self.list@.take(i as int + 1));
            }
            i = i + 1;
        }
        proof {
            assert(self.list@.take(i as int) =~= self.list@);
        }
        out
    }

    /// The distribution for the drops in this drop list.
    pub fn distribution(&self) -> (r: &Option<D>)
        ensures
            *r == self.spec_distribution(),
    {
        &self.distribution
    }
}

/// The drop table for piglin barters in Minecraft 1.16.1.
pub open spec fn barter_catalogue() -> Seq<DropConfig> {
    seq![
        DropConfig { item: Item::Book, weight: 5, min_count: 1, max_count: 1 },
        DropConfig { item: Item::IronBoots, weight: 8, min_count: 1, max_count: 1 },
        DropConfig { item: Item::Potion, weight: 10, min_count: 1, max_count: 1 },
        DropConfig { item: Item::SplashPotion, weight: 10, min_count: 1, max_count: 1 },
        DropConfig { item: Item::IronNugget, weight: 10, min_count: 9, max_count: 36 },
        DropConfig { item: Item::Quartz, weight: 20, min_count: 8, max_count: 16 },
        DropConfig { item: Item::GlowstoneDust, weight: 20, min_count: 5, max_count: 12 },
        DropConfig { item: Item::MagmaCream, weight: 20, min_count: 2, max_count: 6 },
        DropConfig { item: Item::EnderPearl, weight: 20, min_count: 4, max_count: 8 },
        DropConfig { item: Item::String, weight: 20, min_count: 8, max_count: 24 },
        DropConfig { item: Item::FireCharge, weight: 40, min_count: 1, max_count: 5 },
        DropConfig { item: Item::Gravel, weight: 40, min_count: 8, max_count: 16 },
        DropConfig { item: Item::Leather, weight: 40, min_count: 4, max_count: 10 },
        DropConfig { item: Item::MetherBrick, weight: 40, min_count: 4, max_count: 16 },
        DropConfig { item: Item::Obsidian, weight: 40, min_count: 1, max_count: 1 },
        DropConfig { item: Item::CryingObsidian, weight: 40, min_count: 1, max_count: 3 },
        DropConfig { item: Item::SoulSand, weight: 40, min_count: 4, max_count: 16 },
    ]
}

/// The drop table for blaze fights in Minecraft 1.16.1: every fight is
/// one entry, dropping zero or one rod.
pub open spec fn blaze_catalogue() -> Seq<DropConfig> {
    seq![DropConfig { item: Item::BlazeRod, weight: 1, min_count: 0, max_count: 1 }]
}

/// What holds of the barter catalogue: its pearl entry, its total
/// weight, and that it is a well-formed drop table.
pub proof fn lemma_barter_catalogue_facts()
    ensures
        catalogue_wf(barter_catalogue()),
        total_weight(barter_catalogue()) == 423,
        has_item(barter_catalogue(), Item::EnderPearl),
        find_from(barter_catalogue(), Item::EnderPearl, 0) == 8,
        find_entry(barter_catalogue(), Item::EnderPearl) == (DropConfig {
            item: Item::EnderPearl,
            weight: 20,
            min_count: 4,
            max_count: 8,
        }),
{
    reveal_with_fuel(crate::drop::weight_prefix, 20);
    reveal_with_fuel(find_from, 12);
    assert(catalogue_wf(barter_catalogue())) by {
        assert forall|i: int| 0 <= i < barter_catalogue().len() implies barter_catalogue()[i].min_count
            <= barter_catalogue()[i].max_count by {
        }
    }
}

/// What holds of the blaze catalogue: its rod entry, its total weight,
/// and that it is a well-formed drop table.
pub proof fn lemma_blaze_catalogue_facts()
    ensures
        catalogue_wf(blaze_catalogue()),
        total_weight(blaze_catalogue()) == 1,
        has_item(blaze_catalogue(), Item::BlazeRod),
        find_entry(blaze_catalogue(), Item::BlazeRod) == (DropConfig {
            item: Item::BlazeRod,
            weight: 1,
            min_count: 0,
            max_count: 1,
        }),
{
    reveal_with_fuel(crate::drop::weight_prefix, 3);
    reveal_with_fuel(find_from, 3);
}

/// Builds the piglin barter drop table as a vector.
fn barter_list() -> (r: Vec<DropConfig>)
    ensures
        r@ == barter_catalogue(),
{
    let mut list: Vec<DropConfig> = Vec::new();
    list.push(DropConfig::new(Item::Book, 5, 1, 1));
    list.push(DropConfig::new(Item::IronBoots, 8, 1, 1));
    list.push(DropConfig::new(Item::Potion, 10, 1, 1));
    list.push(DropConfig::new(Item::SplashPotion, 10, 1, 1));
    list.push(DropConfig::new(Item::IronNugget, 10, 9, 36));
    list.push(DropConfig::new(Item::Quartz, 20, 8, 16));
    list.push(DropConfig::new(Item::GlowstoneDust, 20, 5, 12));
    list.push(DropConfig::new(Item::MagmaCream, 20, 2, 6));
    list.push(DropConfig::new(Item::EnderPearl, 20, 4, 8));
    list.push(DropConfig::new(Item::String, 20, 8, 24));
    list.push(DropConfig::new(Item::FireCharge, 40, 1, 5));
    list.push(DropConfig::new(Item::Gravel, 40, 8, 16));
    list.push(DropConfig::new(Item::Leather, 40, 4, 10));
    list.push(DropConfig::new(Item::MetherBrick, 40, 4, 16));
    list.push(DropConfig::new(Item::Obsidian, 40, 1, 1));
    list.push(DropConfig::new(Item::CryingObsidian, 40, 1, 3));
    list.push(DropConfig::new(Item::SoulSand, 40, 4, 16));
    proof {
        assert(list@ =~= barter_catalogue());
    }
    list
}

/// The drop list for piglin barters in Minecraft 1.16.1, together with
/// the pearl distribution for the given aggregate and per-run targets.
/// The distribution is present exactly when both targets are positive.
pub fn barter_drop_list(ender_pearl_target_total: u32, ender_pearl_target_per_run: u32) -> (r:
    DropList<EnderPearlDistribution>)
    requires
        ender_pearl_target_per_run < u32::MAX,
    ensures
        r.spec_list() == barter_catalogue(),
        r.spec_distribution() is Some <==> (ender_pearl_target_total > 0
            && ender_pearl_target_per_run > 0),
        r.spec_distribution() matches Some(d) ==> {
            &&& d.spec_target_total() == ender_pearl_target_total
            &&& d.spec_target_per_run() == ender_pearl_target_per_run
            &&& d.spec_distribution() == (NegBinomialParams {
                shape_num: (ender_pearl_target_total * ea_fp(
                    4,
                    8,
                    ender_pearl_target_per_run as int,
                )) as u128,
                shape_den: (ender_pearl_target_per_run * ATTEMPTS_SCALE) as u128,
                p_num: 20u64,
                p_den: 423u64,
            })
        },
{
    let list = barter_list();
    proof {
        lemma_barter_catalogue_facts();
    }
    let distribution = EnderPearlDistribution::new(
        ender_pearl_target_total,
        ender_pearl_target_per_run,
        &list,
    );
    DropList::new(list, distribution)
}

/// The drop list for blaze fights in Minecraft 1.16.1, together with
/// the rod distribution for the given target. The distribution is
/// present exactly when the target is positive.
pub fn blaze_drop_list(blaze_rod_target: u32) -> (r: DropList<BlazeRodDistribution>)
    ensures
        r.spec_list() == blaze_catalogue(),
        r.spec_distribution() is Some <==> blaze_rod_target > 0,
        r.spec_distribution() matches Some(d) ==> {
            &&& d.spec_target() == blaze_rod_target
            &&& d.spec_distribution() == (NegBinomialParams {
                shape_num: blaze_rod_target as u128,
                shape_den: 1u128,
                p_num: 1u64,
                p_den: 2u64,
            })
        },
{
    let mut list: Vec<DropConfig> = Vec::new();
    list.push(DropConfig::new(Item::BlazeRod, 1, 0, 1));
    proof {
        assert(list@ =~= blaze_catalogue());
        lemma_blaze_catalogue_facts();
    }
    let distribution = BlazeRodDistribution::new(blaze_rod_target, &list);
    DropList::new(list, distribution)
}

} // verus!
