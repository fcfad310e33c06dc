//! Aggregates over a fixed, non-empty group of runs, each remembered once it
//! has been computed.

use vstd::prelude::*;
use crate::result_analyser::{
    AnalyseError,
    ResultAnalyser,
    driving_time_of,
    pure_driving_time_of,
    seconds_of,
};
use crate::run::{Entry, Run};
use crate::timestamp::{Duration, MAX_ABS_SECONDS};

verus! {

/// Why a group cannot be formed.
#[derive(Clone, Copy, Debug, PartialEq, Eq, Structural)]
pub enum CreateAnalyserGroupError {
    /// A group needs at least one run.
    NoAnalysers,
}

/// The aggregates whose values are single-precision numbers. The group keeps
/// their bit patterns.
#[derive(Clone, Copy, Debug, PartialEq, Eq, Structural)]
pub enum CachedMetric {
    TotalDistance,
    AverageDistance,
    AverageSpeed,
    PureAverageSpeed,
}

/// One slot per aggregate; a slot is filled when its aggregate is first
/// computed without error and is never cleared.
#[derive(Clone, Copy, Debug, PartialEq, Eq, Structural)]
pub struct AnalyserGroupCache {
    pub total_distance: Option<u32>,
    pub average_distance: Option<u32>,
    pub average_speed: Option<u32>,
    pub pure_average_speed: Option<u32>,
    pub total_driving_time: Option<Duration>,
    pub total_pure_driving_time: Option<Duration>,
}

impl AnalyserGroupCache {
    /// The cache with every slot empty.
    pub open spec fn empty() -> AnalyserGroupCache {
        AnalyserGroupCache {
            total_distance: None,
            average_distance: None,
            average_speed: None,
            pure_average_speed: None,
            total_driving_time: None,
            total_pure_driving_time: None,
        }
    }

    /// The slot of a single-precision aggregate.
    pub open spec fn metric(self, metric: CachedMetric) -> Option<u32> {
        match metric {
            CachedMetric::TotalDistance => self.total_distance,
            CachedMetric::AverageDistance => self.average_distance,
            CachedMetric::AverageSpeed => self.average_speed,
            CachedMetric::PureAverageSpeed => self.pure_average_speed,
        }
    }

    /// This cache with the slot of `metric` set to `value`.
    pub open spec fn with_metric(self, metric: CachedMetric, value: Option<u32>) -> AnalyserGroupCache {
        match metric {
            CachedMetric::TotalDistance => AnalyserGroupCache { total_distance: value, ..self },
            CachedMetric::AverageDistance => AnalyserGroupCache { average_distance: value, ..self },
            CachedMetric::AverageSpeed => AnalyserGroupCache { average_speed: value, ..self },
            CachedMetric::PureAverageSpeed => AnalyserGroupCache { pure_average_speed: value, ..self },
        }
    }

    /// A cache with every slot empty.
    pub fn new() -> (r: AnalyserGroupCache)
        ensures
            r == AnalyserGroupCache::empty(),
    {
        AnalyserGroupCache {
            total_distance: None,
            average_distance: None,
            average_speed: None,
            pure_average_speed: None,
            total_driving_time: None,
            total_pure_driving_time: None,
        }
    }
}

/// Sum of a measure over the runs, in order; the first run whose measure
/// fails decides the error.
pub open spec fn sum_over_runs(
    runs: Seq<Seq<Entry>>,
    measure: spec_fn(Seq<Entry>) -> Result<int, AnalyseError>,
) -> Result<int, AnalyseError>
    decreases runs.len(),
{
    if runs.len() == 0 {
        Ok(0)
    } else {
        match sum_over_runs(runs.drop_last(), measure) {
            Err(e) => Err(e),
            Ok(total) => match measure(runs.last()) {
                Err(e) => Err(e),
                Ok(m) => Ok(total + m),
            },
        }
    }
}

/// Sum of the driving times of the runs.
pub open spec fn total_driving_time_of(runs: Seq<Seq<Entry>>) -> Result<int, AnalyseError> {
    sum_over_runs(runs, |s: Seq<Entry>| driving_time_of(s))
}

/// Sum of the driving times without standstill of the runs.
pub open spec fn total_pure_driving_time_of(runs: Seq<Seq<Entry>>) -> Result<int, AnalyseError> {
    sum_over_runs(runs, |s: Seq<Entry>| pure_driving_time_of(s))
}

/// The runs that analysers look at, in order.
pub open spec fn runs_of(analysers: Seq<ResultAnalyser>) -> Seq<Seq<Entry>> {
    analysers.map_values(|a: ResultAnalyser| a@)
}

/// Once a prefix of the runs fails, the whole sequence fails the same way.
proof fn lemma_sum_over_runs_error(
    runs: Seq<Seq<Entry>>,
    measure: spec_fn(Seq<Entry>) -> Result<int, AnalyseError>,
    k: int,
)
    requires
        0 <= k <= runs.len(),
        sum_over_runs(runs.take(k), measure) is Err,
    ensures
        sum_over_runs(runs, measure) == sum_over_runs(runs.take(k), measure),
    decreases runs.len() - k,
{
    if k == runs.len() {
        assert(runs.take(k) =~= runs);
    } else {
        assert(runs.take(k + 1).drop_last() =~= runs.take(k));
        lemma_sum_over_runs_error(runs, measure, k + 1);
    }
}

/// A fixed, non-empty group of run analysers with memoised aggregates.
#[derive(Debug)]
pub struct ResultAnalyserGroup {
    analysers: Vec<ResultAnalyser>,
    cache: AnalyserGroupCache,
}

impl ResultAnalyserGroup {
    /// The runs of the group, in order.
    pub closed spec fn runs(&self) -> Seq<Seq<Entry>> {
        runs_of(self.analysers@)
    }

    /// The remembered aggregates.
    pub closed spec fn cache(&self) -> AnalyserGroupCache {
        self.cache
    }

    #[verifier::type_invariant]
    spec fn consistent(self) -> bool {
        &&& self.analysers@.len() >= 1
        &&& self.cache.total_driving_time matches Some(d) ==> total_driving_time_of(self.runs())
            == Ok::<int, AnalyseError>(d.seconds as int)
        &&& self.cache.total_pure_driving_time matches Some(d) ==> total_pure_driving_time_of(
            self.runs(),
        ) == Ok::<int, AnalyseError>(d.seconds as int)
    }

    /// A group of the given analysers with nothing remembered yet;
    /// `NoAnalysers` when there is none.
    pub fn new(analysers: Vec<ResultAnalyser>) -> (r: Result<
        ResultAnalyserGroup,
        CreateAnalyserGroupError,
    >)
        ensures
            r is Err <==> analysers@.len() == 0,
            r matches Err(e) ==> e == CreateAnalyserGroupError::NoAnalysers,
            r matches Ok(g) ==> g.runs() == runs_of(analysers@) && g.cache()
                == AnalyserGroupCache::empty(),
    {
        if analysers.len() == 0 {
            Err(CreateAnalyserGroupError::NoAnalysers)
        } else {
            Ok(ResultAnalyserGroup { analysers, cache: AnalyserGroupCache::new() })
        }
    }

    /// A group with one analyser per run, in order; `NoAnalysers` when there
    /// is no run.
    pub fn try_from(results: Vec<Run>) -> (r: Result<ResultAnalyserGroup, CreateAnalyserGroupError>)
        ensures
            r is Err <==> results@.len() == 0,
            r matches Err(e) ==> e == CreateAnalyserGroupError::NoAnalysers,
            r matches Ok(g) ==> g.runs() == results@.map_values(|r: Run| r@) && g.cache()
                == AnalyserGroupCache::empty(),
    {
        let ghost original = results@;
        let mut results = results;
        let mut analysers: Vec<ResultAnalyser> = Vec::new();
        while results.len() > 0
            invariant
                analysers@.len() + results@.len() == original.len(),
                results@ == original.skip(analysers@.len() as int),
                forall|j: int| 0 <= j < analysers@.len() ==> #[trigger] analysers@[j]@ == original[j]@,
            decreases results@.len(),
        {
            let ghost k = analysers@.len() as int;
            let result = results.remove(0);
            assert(result == original[k]);
            analysers.push(ResultAnalyser::new(result));
            assert(results@ =~= original.skip(k + 1));
        }
        assert(runs_of(analysers@) =~= original.map_values(|r: Run| r@));
        ResultAnalyserGroup::new(analysers)
    }

    /// Number of runs in the group; at least one.
    pub fn len(&self) -> (r: usize)
        ensures
            r == self.runs().len(),
            r >= 1,
    {
        proof {
            use_type_invariant(self);
        }
        self.analysers.len()
    }

    /// The analysers of the group, in order.
    pub fn analysers(&self) -> (r: &Vec<ResultAnalyser>)
        ensures
            runs_of(r@) == self.runs(),
    {
        &self.analysers
    }

    /// The remembered bits of a single-precision aggregate, if any.
    pub fn cached(&self, metric: CachedMetric) -> (r: Option<u32>)
        ensures
            r == self.cache().metric(metric),
    {
        match metric {
            CachedMetric::TotalDistance => self.cache.total_distance,
            CachedMetric::AverageDistance => self.cache.average_distance,
            CachedMetric::AverageSpeed => self.cache.average_speed,
            CachedMetric::PureAverageSpeed => self.cache.pure_average_speed,
        }
    }

    /// Remembers the bits of a computed single-precision aggregate unless
    /// one is remembered already, and returns the remembered bits: the first
    /// value stored for an aggregate is kept for good.
    pub fn remember(&mut self, metric: CachedMetric, bits: u32) -> (r: u32)
        ensures
            r == (match old(self).cache().metric(metric) {
                Some(v) => v,
                None => bits,
            }),
            final(self).cache() == old(self).cache().with_metric(metric, Some(r)),
            final(self).runs() == old(self).runs(),
    {
        proof {
            use_type_invariant(&*self);
        }
        if let Some(v) = self.cached(metric) {
            return v;
        }
        match metric {
            CachedMetric::TotalDistance => self.cache.total_distance = Some(bits),
            CachedMetric::AverageDistance => self.cache.average_distance = Some(bits),
            CachedMetric::AverageSpeed => self.cache.average_speed = Some(bits),
            CachedMetric::PureAverageSpeed => self.cache.pure_average_speed = Some(bits),
        }
        bits
    }

    /// Sum of the driving times of all runs; the first run that fails, in
    /// order, decides the error. Remembered once computed.
    pub fn total_driving_time(&mut self) -> (r: Result<Duration, AnalyseError>)
        ensures
            seconds_of(r) == total_driving_time_of(old(self).runs()),
            final(self).runs() == old(self).runs(),
            final(self).cache() == (match r {
                Ok(d) => AnalyserGroupCache { total_driving_time: Some(d), ..old(self).cache() },
                Err(_) => old(self).cache(),
            }),
    {
        proof {
            use_type_invariant(&*self);
        }
        if let Some(d) = self.cache.total_driving_time {
            return Ok(d);
        }
        let ghost runs = self.runs();
        let ghost measure = |s: Seq<Entry>| driving_time_of(s);
        let n = self.analysers.len();
        let mut total: i128 = 0;
        let mut i: usize = 0;
        while i < n
            invariant
                n == self.analysers@.len(),
                runs == runs_of(self.analysers@),
                measure == (|s: Seq<Entry>| driving_time_of(s)),
                i <= n,
                sum_over_runs(runs.take(i as int), measure) == Ok::<int, AnalyseError>(
                    total as int,
                ),
                0 <= total <= i * (2 * MAX_ABS_SECONDS),
            decreases n - i,
        {
            let measured = self.analysers[i].driving_time();
            proof {
                assert(runs.take(i + 1).drop_last() =~= runs.take(i as int));
                assert(runs.take(i + 1).last() == self.analysers@[i as int]@);
            }
            match measured {
                Err(e) => {
                    proof {
                        lemma_sum_over_runs_error(runs, measure, i + 1);
                    }
                    return Err(e);
                },
                Ok(d) => {
                    proof {
                        assert(total + d.seconds <= (i + 1) * (2 * MAX_ABS_SECONDS)) by (nonlinear_arith)
                            requires
                                total <= i * (2 * MAX_ABS_SECONDS),
                                d.seconds <= 2 * MAX_ABS_SECONDS,
                        ;
                        assert((i + 1) * (2 * MAX_ABS_SECONDS) < 0x7fff_ffff_ffff_ffff_ffff_ffff_ffff_ffff)
                            by (nonlinear_arith)
                            requires
                                i < 0x1_0000_0000_0000_0000int,
                                MAX_ABS_SECONDS == 281_474_976_710_656,
                        ;
                    }
                    total = total + d.seconds;
                },
            }
            i = i + 1;
        }
        assert(runs.take(n as int) =~= runs);
        let d = Duration::seconds(total);
        self.cache.total_driving_time = Some(d);
        Ok(d)
    }

    /// Sum of the driving times without standstill of all runs, each taken
    /// on its own; the first run that fails, in order, decides the error.
    /// Remembered once computed.
    pub fn total_pure_driving_time(&mut self) -> (r: Result<Duration, AnalyseError>)
        ensures
            seconds_of(r) == total_pure_driving_time_of(old(self).runs()),
            final(self).runs() == old(self).runs(),
            final(self).cache() == (match r {
                Ok(d) => AnalyserGroupCache { total_pure_driving_time: Some(d), ..old(self).cache() },
                Err(_) => old(self).cache(),
            }),
    {
        proof {
            use_type_invariant(&*self);
        }
        if let Some(d) = self.cache.total_pure_driving_time {
            return Ok(d);
        }
        let ghost runs = self.runs();
        let ghost measure = |s: Seq<Entry>| pure_driving_time_of(s);
        let n = self.analysers.len();
        let mut total: i128 = 0;
        let mut i: usize = 0;
        while i < n
            invariant
                n == self.analysers@.len(),
                runs == runs_of(self.analysers@),
                measure == (|s: Seq<Entry>| pure_driving_time_of(s)),
                i <= n,
                sum_over_runs(runs.take(i as int), measure) == Ok::<int, AnalyseError>(
                    total as int,
                ),
                0 <= total <= i * (2 * MAX_ABS_SECONDS),
            decreases n - i,
        {
            let measured = self.analysers[i].pure_driving_time();
            proof {
                assert(runs.take(i + 1).drop_last() =~= runs.take(i as int));
                assert(runs.take(i + 1).last() == self.analysers@[i as int]@);
            }
            match measured {
                Err(e) => {
                    proof {
                        lemma_sum_over_runs_error(runs, measure, i + 1);
                    }
                    return Err(e);
                },
                Ok(d) => {
                    proof {
                        assert(total + d.seconds <= (i + 1) * (2 * MAX_ABS_SECONDS)) by (nonlinear_arith)
                            requires
                                total <= i * (2 * MAX_ABS_SECONDS),
                                d.seconds <= 2 * MAX_ABS_SECONDS,
                        ;
                        assert((i + 1) * (2 * MAX_ABS_SECONDS) < 0x7fff_ffff_ffff_ffff_ffff_ffff_ffff_ffff)
                            by (nonlinear_arith)
                            requires
                                i < 0x1_0000_0000_0000_0000int,
                                MAX_ABS_SECONDS == 281_474_976_710_656,
                        ;
                    }
                    total = total + d.seconds;
                },
            }
            i = i + 1;
        }
        assert(runs.take(n as int) =~= runs);
        let d = Duration::seconds(total);
        self.cache.total_pure_driving_time = Some(d);
        Ok(d)
    }
}

} // verus!
