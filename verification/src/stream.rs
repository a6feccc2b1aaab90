use crate::drop::{total_weight, DropConfig, DropSim, Item};
use crate::run::{
    count_matching, farm_trace_ok, lemma_count_le_len, lemma_metrics_nonneg, sum_counts, Run,
    RunGoals, RunSim,
};
use crate::stats::BlazeRodDistribution;
use vstd::prelude::*;

verus! {

/// The number of barters made across a sequence of runs.
pub open spec fn stream_total_barters(runs: Seq<Run>) -> int
    decreases runs.len(),
{
    if runs.len() == 0 {
        0
    } else {
        stream_total_barters(runs.drop_last()) + runs.last().barters@.len()
    }
}

/// The number of barters that dropped pearls, across a sequence of
/// runs.
pub open spec fn stream_successful_barters(runs: Seq<Run>) -> int
    decreases runs.len(),
{
    if runs.len() == 0 {
        0
    } else {
        stream_successful_barters(runs.drop_last()) + count_matching(
            runs.last().barters@,
            Item::EnderPearl,
        )
    }
}

/// The number of pearls picked up across a sequence of runs.
pub open spec fn stream_total_pearls(runs: Seq<Run>) -> int
    decreases runs.len(),
{
    if runs.len() == 0 {
        0
    } else {
        stream_total_pearls(runs.drop_last()) + sum_counts(runs.last().barters@, Item::EnderPearl)
    }
}

/// The number of blazes fought across a sequence of runs.
pub open spec fn stream_total_fights(runs: Seq<Run>) -> int
    decreases runs.len(),
{
    if runs.len() == 0 {
        0
    } else {
        stream_total_fights(runs.drop_last()) + runs.last().fights@.len()
    }
}

/// The number of fights that dropped a rod, across a sequence of runs.
pub open spec fn stream_successful_fights(runs: Seq<Run>) -> int
    decreases runs.len(),
{
    if runs.len() == 0 {
        0
    } else {
        stream_successful_fights(runs.drop_last()) + count_matching(
            runs.last().fights@,
            Item::BlazeRod,
        )
    }
}

/// The number of rods picked up across a sequence of runs.
pub open spec fn stream_total_rods(runs: Seq<Run>) -> int
    decreases runs.len(),
{
    if runs.len() == 0 {
        0
    } else {
        stream_total_rods(runs.drop_last()) + sum_counts(runs.last().fights@, Item::BlazeRod)
    }
}

/// Extending the run sequence by one run adds exactly that run's
/// metrics to each stream metric.
proof fn lemma_stream_take_step(runs: Seq<Run>, i: int)
    requires
        0 <= i < runs.len(),
    ensures
        stream_total_barters(runs.take(i + 1)) == stream_total_barters(runs.take(i))
            + runs[i].barters@.len(),
        stream_successful_barters(runs.take(i + 1)) == stream_successful_barters(runs.take(i))
            + count_matching(runs[i].barters@, Item::EnderPearl),
        stream_total_pearls(runs.take(i + 1)) == stream_total_pearls(runs.take(i)) + sum_counts(
            runs[i].barters@,
            Item::EnderPearl,
        ),
        stream_total_fights(runs.take(i + 1)) == stream_total_fights(runs.take(i))
            + runs[i].fights@.len(),
        stream_successful_fights(runs.take(i + 1)) == stream_successful_fights(runs.take(i))
            + count_matching(runs[i].fights@, Item::BlazeRod),
        stream_total_rods(runs.take(i + 1)) == stream_total_rods(runs.take(i)) + sum_counts(
            runs[i].fights@,
            Item::BlazeRod,
        ),
{
    assert(runs.take(i + 1).drop_last() =~= runs.take(i));
    assert(runs.take(i + 1).last() == runs[i]);
}

/// Every stream metric is non-negative and only grows as runs are
/// appended.
proof fn lemma_stream_take_le(runs: Seq<Run>, i: int)
    requires
        0 <= i <= runs.len(),
    ensures
        0 <= stream_total_barters(runs.take(i)) <= stream_total_barters(runs),
        0 <= stream_successful_barters(runs.take(i)) <= stream_successful_barters(runs),
        0 <= stream_total_pearls(runs.take(i)) <= stream_total_pearls(runs),
        0 <= stream_total_fights(runs.take(i)) <= stream_total_fights(runs),
        0 <= stream_successful_fights(runs.take(i)) <= stream_successful_fights(runs),
        0 <= stream_total_rods(runs.take(i)) <= stream_total_rods(runs),
    decreases runs.len() - i,
{
    lemma_stream_nonneg(runs.take(i));
    if i == runs.len() {
        assert(runs.take(i) =~= runs);
    } else {
        lemma_stream_take_step(runs, i);
        lemma_metrics_nonneg(runs[i].barters@, Item::EnderPearl);
        lemma_metrics_nonneg(runs[i].fights@, Item::BlazeRod);
        lemma_stream_take_le(runs, i + 1);
    }
}

/// Every stream metric of any run sequence is non-negative.
proof fn lemma_stream_nonneg(runs: Seq<Run>)
    ensures
        0 <= stream_total_barters(runs),
        0 <= stream_successful_barters(runs),
        0 <= stream_total_pearls(runs),
        0 <= stream_total_fights(runs),
        0 <= stream_successful_fights(runs),
        0 <= stream_total_rods(runs),
    decreases runs.len(),
{
    if runs.len() > 0 {
        lemma_stream_nonneg(runs.drop_last());
        lemma_metrics_nonneg(runs.last().barters@, Item::EnderPearl);
        lemma_metrics_nonneg(runs.last().fights@, Item::BlazeRod);
    }
}

/// Successes never outnumber attempts: a stream cannot have more
/// successful barters than barters, nor more successful fights than
/// fights.
pub proof fn lemma_stream_successes_le_totals(runs: Seq<Run>)
    ensures
        stream_successful_barters(runs) <= stream_total_barters(runs),
        stream_successful_fights(runs) <= stream_total_fights(runs),
    decreases runs.len(),
{
    if runs.len() > 0 {
        lemma_stream_successes_le_totals(runs.drop_last());
        lemma_count_le_len(runs.last().barters@, Item::EnderPearl);
        lemma_count_le_len(runs.last().fights@, Item::BlazeRod);
    }
}

/// The aggregate pearl target of the first `i` run goals.
pub open spec fn target_pearls_prefix(goals: Seq<RunGoals>, i: int) -> int
    decreases i,
{
    if i <= 0 {
        0
    } else {
        target_pearls_prefix(goals, i - 1) + goals[i - 1].target_pearls
    }
}

/// The aggregate rod target of the first `i` run goals.
pub open spec fn target_rods_prefix(goals: Seq<RunGoals>, i: int) -> int
    decreases i,
{
    if i <= 0 {
        0
    } else {
        target_rods_prefix(goals, i - 1) + goals[i - 1].target_rods
    }
}

/// The aggregate pearl target over a stream's run goals.
pub open spec fn total_target_pearls_of(goals: Seq<RunGoals>) -> int {
    target_pearls_prefix(goals, goals.len() as int)
}

/// The aggregate rod target over a stream's run goals.
pub open spec fn total_target_rods_of(goals: Seq<RunGoals>) -> int {
    target_rods_prefix(goals, goals.len() as int)
}

/// Aggregate targets only grow along the goal list.
pub proof fn lemma_target_prefix_mono(goals: Seq<RunGoals>, i: int, j: int)
    requires
        i <= j,
    ensures
        target_pearls_prefix(goals, i) <= target_pearls_prefix(goals, j),
        target_rods_prefix(goals, i) <= target_rods_prefix(goals, j),
    decreases j - i,
{
    if i < j {
        lemma_target_prefix_mono(goals, i, j - 1);
    }
}

/// A prefix of the goal aggregation ignores dropped tail goals.
proof fn lemma_target_prefix_drop_last(goals: Seq<RunGoals>, i: int)
    requires
        0 <= i < goals.len(),
    ensures
        target_pearls_prefix(goals.drop_last(), i) == target_pearls_prefix(goals, i),
        target_rods_prefix(goals.drop_last(), i) == target_rods_prefix(goals, i),
    decreases i,
{
    if i > 0 {
        lemma_target_prefix_drop_last(goals, i - 1);
    }
}

/// A simulated stream reaches its goals: when every run's farming
/// trace reached its target (none ran into the farming draw budget),
/// the stream's accumulated pearls and rods reach the aggregate
/// targets of its goals.
pub proof fn lemma_simulated_stream_meets_targets(
    runs: Seq<Run>,
    goals: Seq<RunGoals>,
    barter_cat: Seq<DropConfig>,
    blaze_cat: Seq<DropConfig>,
)
    requires
        runs.len() == goals.len(),
        forall|i: int| 0 <= i < goals.len() ==> farm_trace_ok(
            #[trigger] runs[i].barters@,
            barter_cat,
            Item::EnderPearl,
            goals[i].target_pearls as int,
        ),
        forall|i: int| 0 <= i < goals.len() ==> farm_trace_ok(
            #[trigger] runs[i].fights@,
            blaze_cat,
            Item::BlazeRod,
            goals[i].target_rods as int,
        ),
        forall|i: int| 0 <= i < runs.len() ==> (#[trigger] runs[i].barters@).len() < u64::MAX,
        forall|i: int| 0 <= i < runs.len() ==> (#[trigger] runs[i].fights@).len() < u64::MAX,
    ensures
        stream_total_pearls(runs) >= total_target_pearls_of(goals),
        stream_total_rods(runs) >= total_target_rods_of(goals),
    decreases runs.len(),
{
    if runs.len() > 0 {
        let n = runs.len() as int;
        lemma_simulated_stream_meets_targets(
            runs.drop_last(),
            goals.drop_last(),
            barter_cat,
            blaze_cat,
        );
        lemma_target_prefix_drop_last(goals, n - 1);
        assert(runs[n - 1] == runs.last());
        assert(sum_counts(runs.last().barters@, Item::EnderPearl) >= goals[n - 1].target_pearls);
        assert(sum_counts(runs.last().fights@, Item::BlazeRod) >= goals[n - 1].target_rods);
    }
}

/// A summary of the results of a stream, targeted around answering
/// questions about how lucky we got with piglin barters and blaze
/// fights specifically. The raw per-draw traces are dropped once a
/// stream is summarized.
#[derive(Debug, Clone, Copy, PartialEq, Eq, Structural)]
pub struct StreamResults {
    pub number_of_runs: u32,
    pub total_barters: u32,
    pub total_fights: u32,
    pub successful_barters: u32,
    pub successful_fights: u32,
    pub total_target_pearls: u32,
    pub average_target_pearls_per_run: u32,
    pub total_target_rods: u32,
}

impl StreamResults {
    /// Creates stream results from the goals of all of the runs in the
    /// stream, and the total number of barters and fights that stream
    /// had to get to those goals.
    pub fn new(
        goals: &Vec<RunGoals>,
        total_barters: u32,
        total_fights: u32,
        successful_barters: u32,
        successful_fights: u32,
    ) -> (r: Self)
        requires
            goals@.len() > 0,
            goals@.len() <= u32::MAX,
            total_target_pearls_of(goals@) <= u32::MAX,
            total_target_rods_of(goals@) <= u32::MAX,
        ensures
            r.number_of_runs == goals@.len(),
            r.total_barters == total_barters,
            r.total_fights == total_fights,
            r.successful_barters == successful_barters,
            r.successful_fights == successful_fights,
            r.total_target_pearls == total_target_pearls_of(goals@),
            r.total_target_rods == total_target_rods_of(goals@),
            r.average_target_pearls_per_run == total_target_pearls_of(goals@) / (goals@.len() as int),
    {
        let n = goals.len();
        let mut total_target_pearls: u32 = 0;
        let mut total_target_rods: u32 = 0;
        let mut i: usize = 0;
        while i < n
            invariant
                n == goals@.len() <= u32::MAX,
                i <= n,
                total_target_pearls_of(goals@) <= u32::MAX,
                total_target_rods_of(goals@) <= u32::MAX,
                total_target_pearls == target_pearls_prefix(goals@, i as int),
                total_target_rods == target_rods_prefix(goals@, i as int),
            decreases n - i,
        {
            proof {
                lemma_target_prefix_mono(goals@, i as int + 1, goals@.len() as int);
                lemma_target_prefix_mono(goals@, 0, i as int);
            }
            total_target_pearls = total_target_pearls + goals[i].target_pearls;
            total_target_rods = total_target_rods + goals[i].target_rods;
            i = i + 1;
        }
        proof {
            lemma_target_prefix_mono(goals@, 0, goals@.len() as int);
        }
        Self {
            total_barters,
            total_fights,
            successful_barters,
            successful_fights,
            number_of_runs: n as u32,
            total_target_pearls,
            average_target_pearls_per_run: total_target_pearls / (n as u32),
            total_target_rods,
        }
    }

    /// The number of failed barters that this summary's pearl luck and
    /// probability are scored at, or nothing when the stream had no
    /// pearl target at all: a zero target is impossible to be unlucky
    /// about, so there is nothing to score.
    pub fn pearl_failures(&self) -> (r: Option<u32>)
        requires
            self.successful_barters <= self.total_barters,
        ensures
            r is Some <==> self.total_target_pearls != 0,
            r matches Some(f) ==> f == self.total_barters - self.successful_barters,
    {
        if self.total_target_pearls == 0 {
            None
        } else {
            Some(self.total_barters - self.successful_barters)
        }
    }

    /// The number of failed fights that this summary's rod luck and
    /// probability are scored at against the given model, or nothing
    /// when the stream had no rod target at all. The difference can be
    /// negative when the stream was scored against a model with a
    /// larger target than it reached.
    pub fn rod_failures(&self, model: &BlazeRodDistribution) -> (r: Option<i64>)
        ensures
            r is Some <==> self.total_target_rods != 0,
            r matches Some(f) ==> f == self.total_fights - model.spec_target(),
    {
        if self.total_target_rods == 0 {
            None
        } else {
            Some(self.total_fights as i64 - model.target() as i64)
        }
    }
}

/// A single 'stream' of minecraft speed runs: a list of speed runs,
/// each with the goals it was farmed for.
#[derive(Debug, Clone)]
pub struct Stream {
    pub runs: Vec<Run>,
    pub goals: Vec<RunGoals>,
}

impl Stream {
    /// Simulate the stream from drop simulators for bartering and
    /// blazes, and a list of goals per run: one run per goal, in order.
    pub fn simulate(
        barter_drop_sim: &mut DropSim,
        blaze_drop_sim: &mut DropSim,
        goals: Vec<RunGoals>,
    ) -> (s: Self)
        requires
            old(barter_drop_sim).wf(),
            total_weight(old(barter_drop_sim).catalogue()) > 0,
            old(blaze_drop_sim).wf(),
            total_weight(old(blaze_drop_sim).catalogue()) > 0,
        ensures
            final(barter_drop_sim).wf(),
            final(barter_drop_sim).catalogue() == old(barter_drop_sim).catalogue(),
            final(blaze_drop_sim).wf(),
            final(blaze_drop_sim).catalogue() == old(blaze_drop_sim).catalogue(),
            s.goals@ == goals@,
            s.runs@.len() == goals@.len(),
            forall|i: int| 0 <= i < goals@.len() ==> farm_trace_ok(
                #[trigger] s.runs@[i].barters@,
                old(barter_drop_sim).catalogue(),
                Item::EnderPearl,
                goals@[i].target_pearls as int,
            ),
            forall|i: int| 0 <= i < goals@.len() ==> farm_trace_ok(
                #[trigger] s.runs@[i].fights@,
                old(blaze_drop_sim).catalogue(),
                Item::BlazeRod,
                goals@[i].target_rods as int,
            ),
    {
        let ghost barter_cat = old(barter_drop_sim).catalogue();
        let ghost blaze_cat = old(blaze_drop_sim).catalogue();
        let n = goals.len();
        let mut runs: Vec<Run> = Vec::new();
        let mut i: usize = 0;
        while i < n
            invariant
                n == goals@.len(),
                i <= n,
                runs@.len() == i,
                barter_drop_sim.wf(),
                barter_drop_sim.catalogue() == barter_cat,
                total_weight(barter_cat) > 0,
                blaze_drop_sim.wf(),
                blaze_drop_sim.catalogue() == blaze_cat,
                total_weight(blaze_cat) > 0,
                forall|j: int| 0 <= j < i ==> farm_trace_ok(
                    #[trigger] runs@[j].barters@,
                    barter_cat,
                    Item::EnderPearl,
                    goals@[j].target_pearls as int,
                ),
                forall|j: int| 0 <= j < i ==> farm_trace_ok(
                    #[trigger] runs@[j].fights@,
                    blaze_cat,
                    Item::BlazeRod,
                    goals@[j].target_rods as int,
                ),
            decreases n - i,
        {
            let run = Stream::simulate_run(barter_drop_sim, blaze_drop_sim, &goals, i);
            runs.push(run);
            i = i + 1;
        }
        Self { goals, runs }
    }

    /// The total number of barters made across all runs in the stream.
    pub fn total_barters(&self) -> (r: u32)
        requires
            stream_total_barters(self.runs@) <= u32::MAX,
        ensures
            r == stream_total_barters(self.runs@),
    {
        let mut acc: u32 = 0;
        let mut i: usize = 0;
        while i < self.runs.len()
            invariant
                i <= self.runs@.len(),
                stream_total_barters(self.runs@) <= u32::MAX,
                acc == stream_total_barters(self.runs@.take(i as int)),
            decreases self.runs@.len() - i,
        {
            proof {
                lemma_stream_take_step(self.runs@, i as int);
                lemma_stream_take_le(self.runs@, i as int + 1);
                lemma_stream_take_le(self.runs@, i as int);
            }
            acc = acc + self.runs[i].total_barters();
            i = i + 1;
        }
        proof {
            assert(self.runs@.take(i as int) =~= self.runs@);
        }
        acc
    }

    /// The number of barters that dropped pearls, across all runs in
    /// the stream.
    pub fn successful_barters(&self) -> (r: u32)
        requires
            stream_total_barters(self.runs@) <= u32::MAX,
        ensures
            r == stream_successful_barters(self.runs@),
    {
        let mut acc: u32 = 0;
        let mut i: usize = 0;
        while i < self.runs.len()
            invariant
                i <= self.runs@.len(),
                stream_total_barters(self.runs@) <= u32::MAX,
                acc == stream_successful_barters(self.runs@.take(i as int)),
            decreases self.runs@.len() - i,
        {
            proof {
                lemma_stream_take_step(self.runs@, i as int);
                lemma_stream_take_le(self.runs@, i as int + 1);
                lemma_stream_take_le(self.runs@, i as int);
                lemma_stream_successes_le_totals(self.runs@.take(i as int + 1));
                lemma_count_le_len(self.runs@[i as int].barters@, Item::EnderPearl);
            }
            acc = acc + self.runs[i].successful_barters();
            i = i + 1;
        }
        proof {
            assert(self.runs@.take(i as int) =~= self.runs@);
        }
        acc
    }

    /// The total number of pearls picked up across all runs in the
    /// stream.
    pub fn total_pearls(&self) -> (r: u32)
        requires
            stream_total_pearls(self.runs@) <= u32::MAX,
        ensures
            r == stream_total_pearls(self.runs@),
    {
        let mut acc: u32 = 0;
        let mut i: usize = 0;
        while i < self.runs.len()
            invariant
                i <= self.runs@.len(),
                stream_total_pearls(self.runs@) <= u32::MAX,
                acc == stream_total_pearls(self.runs@.take(i as int)),
            decreases self.runs@.len() - i,
        {
            proof {
                lemma_stream_take_step(self.runs@, i as int);
                lemma_stream_take_le(self.runs@, i as int + 1);
                lemma_stream_take_le(self.runs@, i as int);
            }
            acc = acc + self.runs[i].total_pearls();
            i = i + 1;
        }
        proof {
            assert(self.runs@.take(i as int) =~= self.runs@);
        }
        acc
    }

    /// The total number of blazes killed across all runs in the stream.
    pub fn total_fights(&self) -> (r: u32)
        requires
            stream_total_fights(self.runs@) <= u32::MAX,
        ensures
            r == stream_total_fights(self.runs@),
    {
        let mut acc: u32 = 0;
        let mut i: usize = 0;
        while i < self.runs.len()
            invariant
                i <= self.runs@.len(),
                stream_total_fights(self.runs@) <= u32::MAX,
                acc == stream_total_fights(self.runs@.take(i as int)),
            decreases self.runs@.len() - i,
        {
            proof {
                lemma_stream_take_step(self.runs@, i as int);
                lemma_stream_take_le(self.runs@, i as int + 1);
                lemma_stream_take_le(self.runs@, i as int);
            }
            acc = acc + self.runs[i].total_fights();
            i = i + 1;
        }
        proof {
            assert(self.runs@.take(i as int) =~= self.runs@);
        }
        acc
    }

    /// The number of fights that dropped a rod, across all runs in the
    /// stream.
    pub fn successful_fights(&self) -> (r: u32)
        requires
            stream_total_fights(self.runs@) <= u32::MAX,
        ensures
            r == stream_successful_fights(self.runs@),
    {
        let mut acc: u32 = 0;
        let mut i: usize = 0;
        while i < self.runs.len()
            invariant
                i <= self.runs@.len(),
                stream_total_fights(self.runs@) <= u32::MAX,
                acc == stream_successful_fights(self.runs@.take(i as int)),
            decreases self.runs@.len() - i,
        {
            proof {
                lemma_stream_take_step(self.runs@, i as int);
                lemma_stream_take_le(self.runs@, i as int + 1);
                lemma_stream_take_le(self.runs@, i as int);
                lemma_stream_successes_le_totals(self.runs@.take(i as int + 1));
                lemma_count_le_len(self.runs@[i as int].fights@, Item::BlazeRod);
            }
            acc = acc + self.runs[i].successful_fights();
            i = i + 1;
        }
        proof {
            assert(self.runs@.take(i as int) =~= self.runs@);
        }
        acc
    }

    /// The total number of blaze rods picked up across all runs in the
    /// stream.
    pub fn total_rods(&self) -> (r: u32)
        requires
            stream_total_rods(self.runs@) <= u32::MAX,
        ensures
            r == stream_total_rods(self.runs@),
    {
        let mut acc: u32 = 0;
        let mut i: usize = 0;
        while i < self.runs.len()
            invariant
                i <= self.runs@.len(),
                stream_total_rods(self.runs@) <= u32::MAX,
                acc == stream_total_rods(self.runs@.take(i as int)),
            decreases self.runs@.len() - i,
        {
            proof {
                lemma_stream_take_step(self.runs@, i as int);
                lemma_stream_take_le(self.runs@, i as int + 1);
                lemma_stream_take_le(self.runs@, i as int);
            }
            acc = acc + self.runs[i].total_rods();
            i = i + 1;
        }
        proof {
            assert(self.runs@.take(i as int) =~= self.runs@);
        }
        acc
    }

    /// A summary of the results of the stream: the aggregated metrics
    /// of its runs against the aggregated targets of its goals.
    pub fn results(&self) -> (r: StreamResults)
        requires
            self.goals@.len() > 0,
            self.goals@.len() <= u32::MAX,
            total_target_pearls_of(self.goals@) <= u32::MAX,
            total_target_rods_of(self.goals@) <= u32::MAX,
            stream_total_barters(self.runs@) <= u32::MAX,
            stream_total_fights(self.runs@) <= u32::MAX,
            stream_total_pearls(self.runs@) <= u32::MAX,
            stream_total_rods(self.runs@) <= u32::MAX,
        ensures
            r.number_of_runs == self.goals@.len(),
            r.total_barters == stream_total_barters(self.runs@),
            r.total_fights == stream_total_fights(self.runs@),
            r.successful_barters == stream_successful_barters(self.runs@),
            r.successful_fights == stream_successful_fights(self.runs@),
            r.total_target_pearls == total_target_pearls_of(self.goals@),
            r.total_target_rods == total_target_rods_of(self.goals@),
            r.average_target_pearls_per_run == total_target_pearls_of(self.goals@)
                / (self.goals@.len() as int),
            r.successful_barters <= r.total_barters,
            r.successful_fights <= r.total_fights,
    {
        proof {
            lemma_stream_successes_le_totals(self.runs@);
            lemma_stream_nonneg(self.runs@);
        }
        StreamResults::new(
            &self.goals,
            self.total_barters(),
            self.total_fights(),
            self.successful_barters(),
            self.successful_fights(),
        )
    }

    /// Simulate a single run of the stream.
    fn simulate_run(
        barter_drop_sim: &mut DropSim,
        blaze_drop_sim: &mut DropSim,
        goals: &Vec<RunGoals>,
        run: usize,
    ) -> (r: Run)
        requires
            old(barter_drop_sim).wf(),
            total_weight(old(barter_drop_sim).catalogue()) > 0,
            old(blaze_drop_sim).wf(),
            total_weight(old(blaze_drop_sim).catalogue()) > 0,
            run < goals@.len(),
        ensures
            final(barter_drop_sim).wf(),
            final(barter_drop_sim).catalogue() == old(barter_drop_sim).catalogue(),
            final(blaze_drop_sim).wf(),
            final(blaze_drop_sim).catalogue() == old(blaze_drop_sim).catalogue(),
            farm_trace_ok(
                r.barters@,
                old(barter_drop_sim).catalogue(),
                Item::EnderPearl,
                goals@[run as int].target_pearls as int,
            ),
            farm_trace_ok(
                r.fights@,
                old(blaze_drop_sim).catalogue(),
                Item::BlazeRod,
                goals@[run as int].target_rods as int,
            ),
    {
        RunSim::new(goals[run].target_pearls, goals[run].target_rods).run(
            barter_drop_sim,
            blaze_drop_sim,
        )
    }
}

} // verus!
