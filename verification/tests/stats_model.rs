use mc_sim::drop::Item;
use mc_sim::drop_list;
use mc_sim::error::McSimError;
use mc_sim::stats::{
    attempts_to_reach_target, item_drop_average, item_drop_probability, item_drop_range,
    BlazeRodDistribution, EnderPearlDistribution, ATTEMPTS_SCALE,
};
use statrs::distribution::{Discrete, DiscreteCDF, NegativeBinomial};

fn attempts_f64(min: u32, max: u32, target: u32) -> f64 {
    attempts_to_reach_target(min, max, target) as f64 / ATTEMPTS_SCALE as f64
}

fn round4(x: f64) -> f64 {
    (x * 10000.0).round() / 10000.0
}

#[test]
fn expected_attempts_fixtures() {
    assert_eq!(round4(attempts_f64(1, 6, 1)), 1.0000);
    assert_eq!(round4(attempts_f64(1, 6, 4)), 1.5880);
    assert_eq!(round4(attempts_f64(1, 6, 30)), 9.0476);
    assert_eq!(round4(attempts_f64(1, 6, 36)), 10.7619);
    assert_eq!(round4(attempts_f64(1, 6, 80)), 23.3333);
}

#[test]
fn expected_attempts_for_pearl_range() {
    let drop_list = drop_list::barter_drop_list(10, 10);
    let drop_range = item_drop_range(drop_list.list(), Item::EnderPearl);
    assert_eq!(round4(attempts_f64(drop_range.0, drop_range.1, 10)), 2.1200);
}

#[test]
fn expected_attempts_zero_target() {
    assert_eq!(attempts_to_reach_target(1, 6, 0), 0);
}

#[test]
fn expected_attempts_grow_with_the_target() {
    let mut previous = 0u128;
    for target in [0u32, 1, 2, 4, 8, 16, 30, 36, 80] {
        let current = attempts_to_reach_target(1, 6, target);
        assert!(current >= previous);
        previous = current;
    }
}

// A slower reference computation of the same expectation via exact
// probability tables and conditional expectations, following a
// different derivation of the answer, used to cross-validate the
// recurrence.
fn reference_expectation(samples: usize, distribution_size: usize) -> f64 {
    let mut table = vec![vec![0.0f64; samples]; samples];
    table[0][0] = 1.0;
    for throw in 1..samples {
        for num in 1..samples {
            let mut acc = 0.0;
            for dots in 1..std::cmp::min(num + 1, distribution_size + 1) {
                acc += table[throw - 1][num - dots];
            }
            table[throw][num] = acc / distribution_size as f64;
        }
    }
    let probabilities: Vec<f64> = (0..samples)
        .map(|num| (0..samples).map(|throw| table[throw][num]).sum())
        .collect();
    let mut expectations = vec![0.0f64];
    for num in 1..samples {
        let mut normalization = 0.0;
        let mut contribution = 0.0;
        for dots in 1..(std::cmp::min(distribution_size, num) + 1) {
            let prob = probabilities[num - dots];
            normalization += prob;
            contribution += prob * (expectations[num - dots] + 1.0);
        }
        expectations.push(contribution / normalization);
    }
    let mut normalization = 0.0;
    let mut contribution = 0.0;
    for min_dots in 0..distribution_size {
        let prob = (distribution_size - min_dots) as f64 / distribution_size as f64
            * probabilities[samples - min_dots - 1];
        normalization += prob;
        contribution += prob * (expectations[samples - min_dots - 1] + 1.0);
    }
    contribution / normalization
}

#[test]
fn expected_attempts_cross_checked_against_reference() {
    let reference = reference_expectation(36, 6);
    let primary = attempts_f64(1, 6, 36);
    assert!(
        (reference - primary).abs() < 1e-9,
        "reference {} vs primary {}",
        reference,
        primary
    );
}

#[test]
fn item_drop_helpers_on_both_catalogues() {
    let blazes = drop_list::blaze_drop_list(7);
    let barters = drop_list::barter_drop_list(10, 10);

    assert_eq!(item_drop_probability(blazes.list(), Item::BlazeRod), (1, 1));
    assert_eq!(
        item_drop_probability(barters.list(), Item::EnderPearl),
        (20, 423)
    );

    assert_eq!(item_drop_average(blazes.list(), Item::BlazeRod), (1, 2));
    assert_eq!(item_drop_average(barters.list(), Item::EnderPearl), (12, 2));

    assert_eq!(item_drop_range(blazes.list(), Item::BlazeRod), (0, 1));
    assert_eq!(item_drop_range(barters.list(), Item::EnderPearl), (4, 8));
}

fn negative_binomial_of(params: &mc_sim::stats::NegBinomialParams) -> NegativeBinomial {
    let r = params.shape_num as f64 / params.shape_den as f64;
    let p = params.p_num as f64 / params.p_den as f64;
    NegativeBinomial::new(r, p).expect("parameters validated at construction")
}

#[test]
fn pearl_distribution_matches_dream_paper_number() {
    // Estimates the probability of luck as good as 17 runs that each
    // got to 10 pearls within 239 barters, 39 of them successful.
    let number_of_runs = 17;
    let barters_made: u32 = 239;
    let successful_barters: u32 = 39;
    let ender_pearl_target_per_run = 10;
    let ender_pearl_target_total = ender_pearl_target_per_run * number_of_runs;

    let drop_list = drop_list::barter_drop_list(ender_pearl_target_total, ender_pearl_target_per_run);
    let model = drop_list.distribution().as_ref().expect("positive targets");
    let nb = negative_binomial_of(model.distribution());
    let luck = nb.cdf((barters_made - successful_barters) as u64);

    let expected = 0.0000000006713608557973316;
    assert!(
        ((luck - expected) / expected).abs() < 1e-4,
        "luck {} too far from {}",
        luck,
        expected
    );
}

#[test]
fn rod_distribution_matches_mods_paper_number() {
    // Estimates the probability of getting 211 rods within 305 fights.
    let blazes_killed: u32 = 305;
    let number_of_rods: u32 = 211;

    let drop_list = drop_list::blaze_drop_list(number_of_rods);
    let model = drop_list.distribution().as_ref().expect("positive target");
    assert_eq!(model.target(), 211);
    let nb = negative_binomial_of(model.distribution());
    let luck = nb.cdf((blazes_killed - number_of_rods) as u64);

    let expected = 0.000000000008791412042796765;
    assert!(
        ((luck - expected) / expected).abs() < 1e-4,
        "luck {} too far from {}",
        luck,
        expected
    );
}

#[test]
fn distribution_construction_is_deterministic() {
    let a = drop_list::barter_drop_list(170, 10);
    let b = drop_list::barter_drop_list(170, 10);
    let da = a.distribution().as_ref().unwrap();
    let db = b.distribution().as_ref().unwrap();
    assert_eq!(da.distribution(), db.distribution());
    assert_eq!(da.target_total(), db.target_total());
    assert_eq!(da.target_per_run(), db.target_per_run());

    // Scoring from fixed parameters is pure: two evaluations agree
    // exactly.
    let nb = negative_binomial_of(da.distribution());
    assert_eq!(nb.cdf(200), nb.cdf(200));
    assert_eq!(nb.pmf(200), nb.pmf(200));
}

#[test]
fn out_of_domain_parameters_are_refused() {
    // A zero target leaves the negative binomial's domain, so no
    // distribution is built.
    assert!(drop_list::blaze_drop_list(0).distribution().is_none());
    assert!(drop_list::barter_drop_list(0, 10).distribution().is_none());
    assert!(drop_list::barter_drop_list(170, 0).distribution().is_none());

    let barter = drop_list::barter_drop_list(10, 10);
    assert_eq!(
        EnderPearlDistribution::new(0, 10, barter.list()),
        Err(McSimError::InvalidDistribution)
    );
    let blaze = drop_list::blaze_drop_list(7);
    assert_eq!(
        BlazeRodDistribution::new(0, blaze.list()),
        Err(McSimError::InvalidDistribution)
    );
}

#[test]
fn pearl_model_parameters_are_exact() {
    let model = EnderPearlDistribution::new(220, 10, drop_list::barter_drop_list(10, 10).list())
        .expect("positive targets");
    let params = model.distribution();
    assert_eq!(params.p_num, 20);
    assert_eq!(params.p_den, 423);
    assert_eq!(params.shape_den, 10 * ATTEMPTS_SCALE as u128);
    assert_eq!(params.shape_num, 220 * attempts_to_reach_target(4, 8, 10));
    assert_eq!(model.target_total(), 220);
    assert_eq!(model.target_per_run(), 10);
}

#[test]
fn rod_model_parameters_are_exact() {
    let model = BlazeRodDistribution::new(7, drop_list::blaze_drop_list(7).list())
        .expect("positive target");
    let params = model.distribution();
    assert_eq!(params.shape_num, 7);
    assert_eq!(params.shape_den, 1);
    assert_eq!(params.p_num, 1);
    assert_eq!(params.p_den, 2);
}
