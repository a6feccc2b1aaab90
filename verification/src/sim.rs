use crate::drop_list::{barter_drop_list, blaze_drop_list, DropList};
use crate::run::RunGoals;
use crate::stats::{BlazeRodDistribution, EnderPearlDistribution};
use crate::stream::{lemma_target_prefix_mono, total_target_pearls_of, total_target_rods_of};
use vstd::prelude::*;

verus! {

/// The goals of a simulation of speed run streams: one list of run
/// goals per stream.
#[derive(Debug, Clone)]
pub struct SimulationGoals {
    pub streams: Vec<Vec<RunGoals>>,
}

/// The aggregate pearl target of the first `i` streams.
pub open spec fn goals_pearl_prefix(streams: Seq<Vec<RunGoals>>, i: int) -> int
    decreases i,
{
    if i <= 0 {
        0
    } else {
        goals_pearl_prefix(streams, i - 1) + total_target_pearls_of(streams[i - 1]@)
    }
}

/// The aggregate rod target of the first `i` streams.
pub open spec fn goals_rod_prefix(streams: Seq<Vec<RunGoals>>, i: int) -> int
    decreases i,
{
    if i <= 0 {
        0
    } else {
        goals_rod_prefix(streams, i - 1) + total_target_rods_of(streams[i - 1]@)
    }
}

/// The number of runs in the first `i` streams.
pub open spec fn goals_run_prefix(streams: Seq<Vec<RunGoals>>, i: int) -> int
    decreases i,
{
    if i <= 0 {
        0
    } else {
        goals_run_prefix(streams, i - 1) + streams[i - 1]@.len()
    }
}

/// The aggregate pearl target over every run of every stream.
pub open spec fn goals_pearl_total(streams: Seq<Vec<RunGoals>>) -> int {
    goals_pearl_prefix(streams, streams.len() as int)
}

/// The aggregate rod target over every run of every stream.
pub open spec fn goals_rod_total(streams: Seq<Vec<RunGoals>>) -> int {
    goals_rod_prefix(streams, streams.len() as int)
}

/// The number of runs over all streams.
pub open spec fn goals_run_count(streams: Seq<Vec<RunGoals>>) -> int {
    goals_run_prefix(streams, streams.len() as int)
}

/// The aggregates over streams only grow as streams are appended.
proof fn lemma_goals_prefix_mono(streams: Seq<Vec<RunGoals>>, i: int, j: int)
    requires
        i <= j,
    ensures
        goals_pearl_prefix(streams, i) <= goals_pearl_prefix(streams, j),
        goals_rod_prefix(streams, i) <= goals_rod_prefix(streams, j),
        goals_run_prefix(streams, i) <= goals_run_prefix(streams, j),
    decreases j - i,
{
    if i < j {
        lemma_goals_prefix_mono(streams, i, j - 1);
        lemma_target_prefix_mono(streams[j - 1]@, 0, streams[j - 1]@.len() as int);
    }
}

/// Copies a list of run goals.
fn copy_goals(goals: &Vec<RunGoals>) -> (r: Vec<RunGoals>)
    ensures
        r@ == goals@,
{
    let mut out: Vec<RunGoals> = Vec::new();
    let mut i: usize = 0;
    while i < goals.len()
        invariant
            i <= goals@.len(),
            out@ == goals@.take(i as int),
        decreases goals@.len() - i,
    {
        out.push(goals[i]);
        proof {
            assert(out@ =~= goals@.take(i as int + 1));
        }
        i = i + 1;
    }
    proof {
        assert(goals@.take(i as int) =~= goals@);
    }
    out
}

impl SimulationGoals {
    /// Create simulation goals from a list of streams.
    pub fn new(streams: Vec<Vec<RunGoals>>) -> (r: Self)
        ensures
            r.streams@ == streams@,
    {
        Self { streams }
    }

    /// Create simulation goals for a number of streams that repeat the
    /// same list of run goals.
    pub fn new_repeat_streams(streams: u64, run_goals: Vec<RunGoals>) -> (r: Self)
        requires
            streams <= usize::MAX,
        ensures
            r.streams@.len() == streams,
            forall|i: int| 0 <= i < streams ==> #[trigger] r.streams@[i]@ == run_goals@,
    {
        let mut out: Vec<Vec<RunGoals>> = Vec::new();
        let mut i: usize = 0;
        while i < streams as usize
            invariant
                streams <= usize::MAX,
                i <= streams,
                out@.len() == i,
                forall|j: int| 0 <= j < i ==> #[trigger] out@[j]@ == run_goals@,
            decreases streams - i,
        {
            out.push(copy_goals(&run_goals));
            i = i + 1;
        }
        Self { streams: out }
    }

    /// Consume the simulation goals and get out all of the streams' run
    /// goal lists.
    pub fn into_streams(self) -> (r: Vec<Vec<RunGoals>>)
        ensures
            r@ == self.streams@,
    {
        self.streams
    }
}

/// Builds simulation goals from chained calls, to make simulation goals
/// easier to configure.
#[derive(Debug)]
pub struct SimulationGoalsBuilder {
    streams: Vec<Vec<RunGoals>>,
}

impl SimulationGoalsBuilder {
    /// The streams collected so far.
    pub closed spec fn spec_streams(&self) -> Seq<Vec<RunGoals>> {
        self.streams@
    }

    /// Create a simulation goals builder.
    pub fn new() -> (r: Self)
        ensures
            r.spec_streams().len() == 0,
    {
        Self { streams: Vec::new() }
    }

    /// Get the simulation goals, consuming the builder.
    pub fn goals(self) -> (r: SimulationGoals)
        ensures
            r.streams@ == self.spec_streams(),
    {
        SimulationGoals::new(self.streams)
    }

    /// Add a stream to the simulation.
    pub fn add_stream(self) -> (r: Self)
        ensures
            r.spec_streams().len() == self.spec_streams().len() + 1,
            forall|j: int| 0 <= j < self.spec_streams().len() ==> #[trigger] r.spec_streams()[j]@
                == self.spec_streams()[j]@,
            r.spec_streams().last()@.len() == 0,
    {
        let mut s = self;
        s.streams.push(Vec::new());
        s
    }

    /// Add a run to the simulation's last stream, opening a first
    /// stream when none exists yet.
    pub fn add_run(self, target_pearls: u32, target_rods: u32) -> (r: Self)
        ensures
            self.spec_streams().len() == 0 ==> {
                &&& r.spec_streams().len() == 1
                &&& r.spec_streams()[0]@ == seq![RunGoals { target_pearls, target_rods }]
            },
            self.spec_streams().len() > 0 ==> {
                &&& r.spec_streams().len() == self.spec_streams().len()
                &&& forall|j: int| 0 <= j < self.spec_streams().len() - 1
                    ==> #[trigger] r.spec_streams()[j]@ == self.spec_streams()[j]@
                &&& r.spec_streams().last()@ == self.spec_streams().last()@.push(
                    RunGoals { target_pearls, target_rods },
                )
            },
    {
        let mut s = self;
        if s.streams.len() == 0 {
            s.streams.push(Vec::new());
        }
        let mut last = s.streams.pop().unwrap();
        last.push(RunGoals { target_pearls, target_rods });
        s.streams.push(last);
        proof {
            if self.spec_streams().len() == 0 {
                assert(s.streams@[0]@ =~= seq![RunGoals { target_pearls, target_rods }]);
            }
        }
        s
    }

    /// Add a set of identical runs to the simulation's last stream,
    /// opening a first stream when none exists yet.
    pub fn add_runs(self, runs: u32, target_pearls: u32, target_rods: u32) -> (r: Self)
        ensures
            self.spec_streams().len() == 0 ==> {
                &&& r.spec_streams().len() == 1
                &&& r.spec_streams()[0]@.len() == runs
                &&& forall|k: int| 0 <= k < runs ==> #[trigger] r.spec_streams()[0]@[k]
                    == (RunGoals { target_pearls, target_rods })
            },
            self.spec_streams().len() > 0 ==> {
                &&& r.spec_streams().len() == self.spec_streams().len()
                &&& forall|j: int| 0 <= j < self.spec_streams().len() - 1
                    ==> #[trigger] r.spec_streams()[j]@ == self.spec_streams()[j]@
                &&& r.spec_streams().last()@.len() == self.spec_streams().last()@.len() + runs
                &&& forall|k: int| 0 <= k < self.spec_streams().last()@.len()
                    ==> #[trigger] r.spec_streams().last()@[k] == self.spec_streams().last()@[k]
                &&& forall|k: int| self.spec_streams().last()@.len() <= k
                    < self.spec_streams().last()@.len() + runs
                    ==> #[trigger] r.spec_streams().last()@[k]
                    == (RunGoals { target_pearls, target_rods })
            },
    {
        let ghost old_streams = self.streams@;
        let mut s = self;
        if s.streams.len() == 0 {
            s.streams.push(Vec::new());
        }
        let ghost base = s.streams@.last()@;
        let mut last = s.streams.pop().unwrap();
        let mut i: u32 = 0;
        while i < runs
            invariant
                i <= runs,
                last@.len() == base.len() + i,
                forall|k: int| 0 <= k < base.len() ==> #[trigger] last@[k] == base[k],
                forall|k: int| base.len() <= k < base.len() + i ==> #[trigger] last@[k]
                    == (RunGoals { target_pearls, target_rods }),
            decreases runs - i,
        {
            last.push(RunGoals { target_pearls, target_rods });
            i = i + 1;
        }
        s.streams.push(last);
        s
    }
}

/// The two drop lists, and with them the two probability models, that a
/// simulation's goals determine: the pearl model from the aggregate and
/// mean per-run pearl targets, the rod model from the aggregate rod
/// target.
pub fn drop_lists(goals: &SimulationGoals) -> (r: (
    DropList<EnderPearlDistribution>,
    DropList<BlazeRodDistribution>,
))
    requires
        goals_run_count(goals.streams@) > 0,
        goals_pearl_total(goals.streams@) < u32::MAX,
        goals_rod_total(goals.streams@) <= u32::MAX,
        goals_run_count(goals.streams@) <= u32::MAX,
    ensures
        r.0.spec_list() == crate::drop_list::barter_catalogue(),
        r.1.spec_list() == crate::drop_list::blaze_catalogue(),
        r.0.spec_distribution() is Some <==> (goals_pearl_total(goals.streams@) > 0
            && goals_pearl_total(goals.streams@) / goals_run_count(goals.streams@) > 0),
        r.0.spec_distribution() matches Some(d) ==> {
            &&& d.spec_target_total() == goals_pearl_total(goals.streams@)
            &&& d.spec_target_per_run() == goals_pearl_total(goals.streams@) / goals_run_count(
                goals.streams@,
            )
        },
        r.1.spec_distribution() is Some <==> goals_rod_total(goals.streams@) > 0,
        r.1.spec_distribution() matches Some(d) ==> d.spec_target() == goals_rod_total(
            goals.streams@,
        ),
{
    let n = goals.streams.len();
    let mut pearl_total: u32 = 0;
    let mut rod_total: u32 = 0;
    let mut run_count: u32 = 0;
    let mut i: usize = 0;
    while i < n
        invariant
            n == goals.streams@.len(),
            i <= n,
            goals_pearl_total(goals.streams@) < u32::MAX,
            goals_rod_total(goals.streams@) <= u32::MAX,
            goals_run_count(goals.streams@) <= u32::MAX,
            pearl_total == goals_pearl_prefix(goals.streams@, i as int),
            rod_total == goals_rod_prefix(goals.streams@, i as int),
            run_count == goals_run_prefix(goals.streams@, i as int),
        decreases n - i,
    {
        proof {
            lemma_goals_prefix_mono(goals.streams@, i as int + 1, goals.streams@.len() as int);
            lemma_goals_prefix_mono(goals.streams@, 0, i as int);
            lemma_target_prefix_mono(
                goals.streams@[i as int]@,
                0,
                goals.streams@[i as int]@.len() as int,
            );
        }
        let stream = &goals.streams[i];
        let m = stream.len();
        let mut j: usize = 0;
        while j < m
            invariant
                n == goals.streams@.len(),
                0 <= i < n,
                m == goals.streams@[i as int]@.len(),
                j <= m,
                goals_pearl_total(goals.streams@) < u32::MAX,
                goals_rod_total(goals.streams@) <= u32::MAX,
                goals_run_count(goals.streams@) <= u32::MAX,
                stream@ == goals.streams@[i as int]@,
                goals_pearl_prefix(goals.streams@, i as int) + crate::stream::target_pearls_prefix(
                    stream@,
                    j as int,
                ) == pearl_total,
                goals_rod_prefix(goals.streams@, i as int) + crate::stream::target_rods_prefix(
                    stream@,
                    j as int,
                ) == rod_total,
                run_count == goals_run_prefix(goals.streams@, i as int) + j,
                goals_pearl_prefix(goals.streams@, i as int + 1) <= goals_pearl_total(
                    goals.streams@,
                ),
                goals_rod_prefix(goals.streams@, i as int + 1) <= goals_rod_total(goals.streams@),
                goals_run_prefix(goals.streams@, i as int + 1) <= goals_run_count(goals.streams@),
                0 <= goals_pearl_prefix(goals.streams@, i as int),
                0 <= goals_rod_prefix(goals.streams@, i as int),
                0 <= goals_run_prefix(goals.streams@, i as int),
            decreases m - j,
        {
            proof {
                lemma_target_prefix_mono(stream@, j as int + 1, stream@.len() as int);
                lemma_target_prefix_mono(stream@, 0, j as int);
            }
            pearl_total = pearl_total + stream[j].target_pearls;
            rod_total = rod_total + stream[j].target_rods;
            run_count = run_count + 1;
            j = j + 1;
        }
        i = i + 1;
    }
    let pearl_per_run = pearl_total / run_count;
    let barter = barter_drop_list(pearl_total, pearl_per_run);
    let blaze = blaze_drop_list(rod_total);
    (barter, blaze)
}

/// The worker's cheap pre-filter for "might this stream be a new
/// personal best": true when either raw total improved on the raw
/// totals of the best stream seen. A stream whose combined luck
/// improved without either raw total improving is skipped; that
/// approximation is part of the design and is kept as documented.
pub fn may_beat_personal_best(
    best_barters: u32,
    best_fights: u32,
    total_barters: u32,
    total_fights: u32,
) -> (r: bool)
    ensures
        r == (total_barters < best_barters || total_fights < best_fights),
{
    total_barters < best_barters || total_fights < best_fights
}

/// The sum of the first `i` worker cycle counters.
pub open spec fn sum_u64_prefix(counts: Seq<u64>, i: int) -> int
    decreases i,
{
    if i <= 0 {
        0
    } else {
        sum_u64_prefix(counts, i - 1) + counts[i - 1]
    }
}

/// Worker counter sums only grow.
proof fn lemma_sum_u64_prefix_mono(counts: Seq<u64>, i: int, j: int)
    requires
        i <= j,
    ensures
        sum_u64_prefix(counts, i) <= sum_u64_prefix(counts, j),
    decreases j - i,
{
    if i < j {
        lemma_sum_u64_prefix_mono(counts, i, j - 1);
    }
}

/// The total number of simulation cycles finished across all workers,
/// from the counters they last published. Approximate while workers
/// run: each worker republishes only at its own checkpoint cadence.
pub fn total_simulations(counts: &Vec<u64>) -> (r: u64)
    requires
        sum_u64_prefix(counts@, counts@.len() as int) <= u64::MAX,
    ensures
        r == sum_u64_prefix(counts@, counts@.len() as int),
{
    let mut acc: u64 = 0;
    let mut i: usize = 0;
    while i < counts.len()
        invariant
            i <= counts@.len(),
            sum_u64_prefix(counts@, counts@.len() as int) <= u64::MAX,
            acc == sum_u64_prefix(counts@, i as int),
        decreases counts@.len() - i,
    {
        proof {
            lemma_sum_u64_prefix_mono(counts@, i as int + 1, counts@.len() as int);
            lemma_sum_u64_prefix_mono(counts@, 0, i as int);
        }
        acc = acc + counts[i];
        i = i + 1;
    }
    acc
}

/// A coordinator's view of how far a fixed-cycle simulation has come,
/// derived from the published worker counters.
#[derive(Debug, Clone, Copy, PartialEq, Eq, Structural)]
pub struct SimulationProgress {
    pub streams_simulated: u64,
    pub target_streams: u64,
    pub streams_per_second: u64,
    pub seconds_remaining: u64,
    pub seconds_total_estimate: u64,
    pub completed: bool,
}

/// Derives the progress report for fixed-cycle mode: how many streams
/// the finished cycles amount to, the throughput so far, the estimated
/// time left and total, and whether the requested cycle count has been
/// reached - the fixed-cycle stop decision.
pub fn progress_toward_cycles(
    simulations: u64,
    streams_per_cycle: u64,
    target_cycles: u64,
    elapsed_seconds: u64,
) -> (r: SimulationProgress)
    requires
        elapsed_seconds > 0,
        simulations * streams_per_cycle <= u64::MAX,
        target_cycles * streams_per_cycle <= u64::MAX,
    ensures
        r.streams_simulated == simulations * streams_per_cycle,
        r.target_streams == target_cycles * streams_per_cycle,
        r.streams_per_second == r.streams_simulated / elapsed_seconds,
        r.seconds_remaining == (r.target_streams - (if r.streams_simulated <= r.target_streams {
            r.streams_simulated as int
        } else {
            r.target_streams as int
        })) / (if r.streams_per_second >= 1 {
            r.streams_per_second as int
        } else {
            1int
        }),
        r.seconds_total_estimate == r.target_streams as int / (if r.streams_per_second >= 1 {
            r.streams_per_second as int
        } else {
            1int
        }),
        r.completed == (simulations >= target_cycles),
{
    let streams_simulated = simulations * streams_per_cycle;
    let target_streams = target_cycles * streams_per_cycle;
    let streams_per_second = streams_simulated / elapsed_seconds;
    let done = if streams_simulated <= target_streams {
        streams_simulated
    } else {
        target_streams
    };
    let rate = if streams_per_second >= 1 {
        streams_per_second
    } else {
        1
    };
    SimulationProgress {
        streams_simulated,
        target_streams,
        streams_per_second,
        seconds_remaining: (target_streams - done) / rate,
        seconds_total_estimate: target_streams / rate,
        completed: simulations >= target_cycles,
    }
}

} // verus!
