use mc_sim::drop::{DropConfig, DropSim, Item};
use mc_sim::drop_list;
use mc_sim::run::RunSim;

#[test]
fn drop_config_new_fields() {
    let drop_config = DropConfig::new(Item::EnderPearl, 20, 4, 8);
    assert_eq!(Item::EnderPearl, drop_config.item);
    assert_eq!(20, drop_config.weight);
    assert_eq!(4, drop_config.min_count);
    assert_eq!(8, drop_config.max_count);
}

#[test]
fn get_drop_respects_weights_and_ranges() {
    // A drop list that has a 2:1 chance to be gravel over ender pearls
    // and drops 4 to 8 (inclusive) ender pearls.
    let drop_list = vec![
        DropConfig::new(Item::Gravel, 20, 8, 32),
        DropConfig::new(Item::EnderPearl, 10, 4, 8),
    ];
    let mut drop_sim = DropSim::new(drop_list);

    for _ in 0..1000 {
        let drop = drop_sim.get_drop();
        assert!(drop.roll < 30);
        match drop.item {
            Item::Gravel => {
                assert!(drop.roll < 20);
                assert!(drop.count >= 8);
                assert!(drop.count <= 32);
            }
            Item::EnderPearl => {
                assert!(drop.roll >= 20);
                assert!(drop.roll < 30);
                assert!(drop.count >= 4);
                assert!(drop.count <= 8);
            }
            _ => panic!("an item outside the drop list was drawn"),
        }
    }
}

#[test]
fn sampler_frequencies_match_weights() {
    // Pearls carry 10 of 30 weight units, so a third of many draws
    // should be pearls, within sampling error.
    let drop_list = vec![
        DropConfig::new(Item::Gravel, 20, 8, 32),
        DropConfig::new(Item::EnderPearl, 10, 4, 8),
    ];
    let mut drop_sim = DropSim::new(drop_list);

    let n = 60000;
    let mut pearls = 0u32;
    let mut distinct_counts = std::collections::HashSet::new();
    let mut distinct_rolls = std::collections::HashSet::new();
    for _ in 0..n {
        let drop = drop_sim.get_drop();
        if drop.item == Item::EnderPearl {
            pearls += 1;
            distinct_counts.insert(drop.count);
        }
        distinct_rolls.insert(drop.roll);
    }
    let frequency = pearls as f64 / n as f64;
    let expected = 10.0 / 30.0;
    assert!(
        (frequency - expected).abs() < 0.02,
        "pearl frequency {} too far from {}",
        frequency,
        expected
    );
    // The random source really varies: counts and rolls are not constant.
    assert!(distinct_counts.len() > 1);
    assert!(distinct_rolls.len() > 5);
}

#[test]
fn barter_catalogue_frequency_of_pearls() {
    let list = drop_list::barter_drop_list(10, 10).list_clone();
    let mut drop_sim = DropSim::new(list);
    let n = 100000;
    let mut pearls = 0u32;
    for _ in 0..n {
        let drop = drop_sim.get_drop();
        assert!(drop.roll < 423);
        if drop.item == Item::EnderPearl {
            pearls += 1;
            assert!(drop.count >= 4 && drop.count <= 8);
        }
    }
    let frequency = pearls as f64 / n as f64;
    let expected = 20.0 / 423.0;
    assert!(
        (frequency - expected).abs() < 0.005,
        "pearl frequency {} too far from {}",
        frequency,
        expected
    );
}

#[test]
fn farm_reaches_pearl_target() {
    let mut barter_sim = DropSim::new(drop_list::barter_drop_list(10, 10).list_clone());
    let drops = RunSim::farm_for_item(&mut barter_sim, Item::EnderPearl, 10);

    let total: u64 = drops
        .iter()
        .filter(|d| d.item == Item::EnderPearl)
        .map(|d| d.count as u64)
        .sum();
    assert!(total >= 10);

    // Every draw before the last was still needed.
    let without_last: u64 = drops[..drops.len() - 1]
        .iter()
        .filter(|d| d.item == Item::EnderPearl)
        .map(|d| d.count as u64)
        .sum();
    assert!(without_last < 10);
}

#[test]
fn farm_reaches_rod_target() {
    let mut blaze_sim = DropSim::new(drop_list::blaze_drop_list(7).list_clone());
    let drops = RunSim::farm_for_item(&mut blaze_sim, Item::BlazeRod, 7);

    let total: u64 = drops.iter().map(|d| d.count as u64).sum();
    assert!(total >= 7);
    for d in &drops {
        assert_eq!(d.item, Item::BlazeRod);
        assert!(d.count <= 1);
        assert_eq!(d.roll, 0);
    }
}

#[test]
fn farm_with_zero_target_is_empty() {
    let mut blaze_sim = DropSim::new(drop_list::blaze_drop_list(7).list_clone());
    let drops = RunSim::farm_for_item(&mut blaze_sim, Item::BlazeRod, 0);
    assert!(drops.is_empty());
}

#[test]
fn run_sim_reaches_both_targets() {
    let mut barter_drop_sim = DropSim::new(drop_list::barter_drop_list(10, 10).list_clone());
    let mut blaze_drop_sim = DropSim::new(drop_list::blaze_drop_list(7).list_clone());

    let run_sim = RunSim::new(10, 7);
    let run = run_sim.run(&mut barter_drop_sim, &mut blaze_drop_sim);
    assert!(run.total_pearls() >= 10);
    assert!(run.total_rods() >= 7);
}
