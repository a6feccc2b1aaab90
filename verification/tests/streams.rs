use mc_sim::drop::{Drop, DropSim, Item};
use mc_sim::drop_list;
use mc_sim::run::{Run, RunGoals};
use mc_sim::sim::{
    drop_lists, may_beat_personal_best, progress_toward_cycles, total_simulations,
    SimulationGoals, SimulationGoalsBuilder,
};
use mc_sim::stream::{Stream, StreamResults};
use statrs::distribution::{DiscreteCDF, NegativeBinomial};

fn pearl_drop(count: u32) -> Drop {
    Drop { item: Item::EnderPearl, roll: 0, count }
}

fn gravel_drop() -> Drop {
    Drop { item: Item::Gravel, roll: 0, count: 1 }
}

fn rod_drop(count: u32) -> Drop {
    Drop { item: Item::BlazeRod, roll: 0, count }
}

#[test]
fn run_metrics_count_the_right_drops() {
    let barters = vec![
        gravel_drop(),
        gravel_drop(),
        pearl_drop(1),
        gravel_drop(),
        pearl_drop(3),
    ];
    let fights = vec![
        rod_drop(0),
        rod_drop(0),
        rod_drop(1),
        rod_drop(0),
        rod_drop(0),
        rod_drop(1),
        rod_drop(1),
    ];

    let run = Run::new(barters, fights);
    assert_eq!(run.total_barters(), 5);
    assert_eq!(run.successful_barters(), 2);
    assert_eq!(run.total_pearls(), 4);
    assert_eq!(run.total_fights(), 7);
    assert_eq!(run.successful_fights(), 7);
    assert_eq!(run.total_rods(), 3);
}

#[test]
fn stream_simulation_reaches_every_goal() {
    let mut barter_drop_sim = DropSim::new(drop_list::barter_drop_list(10, 10).list_clone());
    let mut blaze_drop_sim = DropSim::new(drop_list::blaze_drop_list(7).list_clone());
    let goals = vec![
        RunGoals { target_pearls: 10, target_rods: 7 },
        RunGoals { target_pearls: 10, target_rods: 6 },
        RunGoals { target_pearls: 10, target_rods: 8 },
        RunGoals { target_pearls: 10, target_rods: 7 },
    ];

    let stream = Stream::simulate(&mut barter_drop_sim, &mut blaze_drop_sim, goals);

    assert!(stream.total_pearls() >= 40);
    assert!(stream.total_rods() >= 28);
    assert_eq!(stream.runs.len(), 4);
    assert!(stream.runs[2].total_rods() >= 8);
    assert!(stream.total_barters() >= stream.successful_barters());
    assert!(stream.total_fights() >= stream.successful_fights());
}

#[test]
fn stream_results_aggregate_their_stream() {
    let mut barter_drop_sim = DropSim::new(drop_list::barter_drop_list(10, 10).list_clone());
    let mut blaze_drop_sim = DropSim::new(drop_list::blaze_drop_list(7).list_clone());
    let goals = vec![
        RunGoals { target_pearls: 10, target_rods: 7 },
        RunGoals { target_pearls: 12, target_rods: 5 },
    ];

    let stream = Stream::simulate(&mut barter_drop_sim, &mut blaze_drop_sim, goals);
    let results = stream.results();

    assert_eq!(results.number_of_runs, 2);
    assert_eq!(results.total_barters, stream.total_barters());
    assert_eq!(results.total_fights, stream.total_fights());
    assert_eq!(results.successful_barters, stream.successful_barters());
    assert_eq!(results.successful_fights, stream.successful_fights());
    assert_eq!(results.total_target_pearls, 22);
    assert_eq!(results.average_target_pearls_per_run, 11);
    assert_eq!(results.total_target_rods, 12);
}

#[test]
fn stream_results_luck_matches_fixed_numbers() {
    let (runs, pearls, rods) = (22u32, 10u32, 7u32);
    let goals = SimulationGoalsBuilder::new().add_runs(runs, pearls, rods).goals();
    let (target_pearls, target_rods) = (runs * pearls, runs * rods);
    let (total_barters, total_fights) = (937u32, 308u32);
    let (successful_barters, successful_fights) =
        ((target_pearls * 20 * 25) / (53 * 423), target_rods);

    let results = StreamResults::new(
        &goals.streams[0],
        total_barters,
        total_fights,
        successful_barters,
        successful_fights,
    );

    let barter_list = drop_list::barter_drop_list(target_pearls, pearls);
    let blaze_list = drop_list::blaze_drop_list(target_rods);
    let pearl_model = barter_list.distribution().as_ref().unwrap();
    let rod_model = blaze_list.distribution().as_ref().unwrap();

    let pearl_nb = NegativeBinomial::new(
        pearl_model.distribution().shape_num as f64 / pearl_model.distribution().shape_den as f64,
        pearl_model.distribution().p_num as f64 / pearl_model.distribution().p_den as f64,
    )
    .unwrap();
    let rod_nb = NegativeBinomial::new(
        rod_model.distribution().shape_num as f64 / rod_model.distribution().shape_den as f64,
        rod_model.distribution().p_num as f64 / rod_model.distribution().p_den as f64,
    )
    .unwrap();

    let pearl_luck = pearl_nb.cdf(results.pearl_failures().unwrap() as u64);
    let rod_failures = results.rod_failures(rod_model).unwrap();
    assert!(rod_failures >= 0);
    let rod_luck = rod_nb.cdf(rod_failures as u64);
    let luck = pearl_luck * rod_luck;

    assert!((pearl_luck - 0.5016436716111609).abs() < 1e-6, "{}", pearl_luck);
    assert!((rod_luck - 0.5227134024692426).abs() < 1e-6, "{}", rod_luck);
    assert!((luck - 0.2622158704150333).abs() < 1e-6, "{}", luck);
}

#[test]
fn zero_targets_score_as_the_identity() {
    let goals = vec![RunGoals { target_pearls: 0, target_rods: 7 }];
    let results = StreamResults::new(&goals, 100, 20, 10, 10);
    // No pearl target: nothing to score, luck contributes the
    // multiplicative identity and probability nothing at all.
    assert!(results.pearl_failures().is_none());
    let pearl_luck = match results.pearl_failures() {
        None => 1.0,
        Some(f) => NegativeBinomial::new(1.0, 0.5).unwrap().cdf(f as u64),
    };
    let pearl_probability: f64 = match results.pearl_failures() {
        None => 0.0,
        Some(_) => unreachable!(),
    };
    assert_eq!(pearl_luck, 1.0);
    assert_eq!(pearl_probability, 0.0);

    let rod_goals = vec![RunGoals { target_pearls: 10, target_rods: 0 }];
    let rod_results = StreamResults::new(&rod_goals, 100, 20, 10, 10);
    let rod_model = drop_list::blaze_drop_list(7).distribution().as_ref().unwrap().clone();
    assert!(rod_results.rod_failures(&rod_model).is_none());
    assert!(results.rod_failures(&rod_model).is_some());
}

#[test]
fn end_to_end_binary_outcome_scenario() {
    // A single binary-outcome item with weight 1 and range [0, 1],
    // farmed to a target of 7: the mean number of draws is the target
    // over the per-draw average, here 7 / 0.5 = 14.
    let blaze_list = drop_list::blaze_drop_list(7);
    let mut sim = DropSim::new(blaze_list.list_clone());

    let farms = 4000;
    let mut total_draws = 0u64;
    for _ in 0..farms {
        let drops = mc_sim::run::RunSim::farm_for_item(&mut sim, Item::BlazeRod, 7);
        total_draws += drops.len() as u64;
    }
    let mean = total_draws as f64 / farms as f64;
    assert!((mean - 14.0).abs() < 0.5, "mean draws {} too far from 14", mean);

    // The model this configuration induces is a negative binomial with
    // shape 7 and success probability one half; its luck at 14 total
    // draws is the CDF at 7 failures.
    let model = blaze_list.distribution().as_ref().unwrap();
    let params = model.distribution();
    let from_model = NegativeBinomial::new(
        params.shape_num as f64 / params.shape_den as f64,
        params.p_num as f64 / params.p_den as f64,
    )
    .unwrap();
    let reference = NegativeBinomial::new(7.0, 0.5).unwrap();
    assert_eq!(from_model.cdf(14 - 7), reference.cdf(7));
}

#[test]
fn builder_collects_streams_and_runs() {
    let goals = SimulationGoalsBuilder::new()
        .add_stream()
        .add_run(10, 7)
        .add_run(10, 6)
        .add_run(10, 8)
        .add_run(10, 7)
        .add_stream()
        .add_runs(3, 10, 7)
        .goals();

    assert_eq!(goals.streams.len(), 2);
    assert_eq!(goals.streams[0].len(), 4);
    assert_eq!(goals.streams[1].len(), 3);
    assert_eq!(goals.streams[0][1].target_pearls, 10);
    assert_eq!(goals.streams[0][1].target_rods, 6);
}

#[test]
fn builder_opens_a_stream_when_needed() {
    let goals = SimulationGoalsBuilder::new().add_run(9, 5).goals();
    assert_eq!(goals.streams.len(), 1);
    assert_eq!(goals.streams[0].len(), 1);
    assert_eq!(goals.streams[0][0].target_pearls, 9);

    let more = SimulationGoalsBuilder::new().add_runs(4, 2, 3).goals();
    assert_eq!(more.streams.len(), 1);
    assert_eq!(more.streams[0].len(), 4);
    assert_eq!(more.streams[0][3].target_rods, 3);
}

#[test]
fn repeat_streams_copy_the_goal_list() {
    let run_goals = vec![
        RunGoals { target_pearls: 10, target_rods: 7 },
        RunGoals { target_pearls: 10, target_rods: 6 },
    ];
    let goals = SimulationGoals::new_repeat_streams(5, run_goals.clone());
    assert_eq!(goals.streams.len(), 5);
    for stream in &goals.streams {
        assert_eq!(stream.len(), 2);
        assert_eq!(stream[1].target_rods, 6);
    }
    let streams = goals.into_streams();
    assert_eq!(streams.len(), 5);
}

#[test]
fn drop_lists_aggregate_the_goals() {
    let goals = SimulationGoalsBuilder::new().add_runs(22, 10, 7).goals();
    let (barter, blaze) = drop_lists(&goals);

    let pearl_model = barter.distribution().as_ref().unwrap();
    assert_eq!(pearl_model.target_total(), 220);
    assert_eq!(pearl_model.target_per_run(), 10);

    let rod_model = blaze.distribution().as_ref().unwrap();
    assert_eq!(rod_model.target(), 154);

    assert_eq!(barter.list().len(), 17);
    assert_eq!(blaze.list().len(), 1);
}

#[test]
fn coordinator_helpers_compute_their_formulas() {
    assert_eq!(total_simulations(&vec![3, 4, 5]), 12);
    assert_eq!(total_simulations(&vec![]), 0);

    assert!(may_beat_personal_best(100, 100, 99, 200));
    assert!(may_beat_personal_best(100, 100, 200, 99));
    assert!(!may_beat_personal_best(100, 100, 100, 100));

    let progress = progress_toward_cycles(50, 4, 100, 10);
    assert_eq!(progress.streams_simulated, 200);
    assert_eq!(progress.target_streams, 400);
    assert_eq!(progress.streams_per_second, 20);
    assert_eq!(progress.seconds_remaining, 10);
    assert_eq!(progress.seconds_total_estimate, 20);
    assert!(!progress.completed);

    let done = progress_toward_cycles(100, 4, 100, 10);
    assert!(done.completed);
    assert_eq!(done.seconds_remaining, 0);
}
