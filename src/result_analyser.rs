//! Metrics of a single run: the span the distance is measured over, the
//! driving time, and the driving time without standstill.

use vstd::prelude::*;
use crate::run::{
    Entry,
    Run,
    filter_valid_fahrt_weg_and_fahrt_speed,
    is_chronological,
    is_moving,
    lemma_valid_entries_within,
    lemma_valid_entries_of_fully_recorded,
    is_valid,
    valid_entries,
};
use crate::timestamp::{Duration, MAX_ABS_SECONDS};

verus! {

/// Why a metric of a run cannot be computed.
#[derive(Clone, Copy, Debug, PartialEq, Eq, Structural)]
pub enum AnalyseError {
    /// The samples the metric needs are missing.
    NoEntries,
    /// The distance is zero where the metric divides by it.
    ZeroDistance,
    /// The driving time is zero where the metric divides by it.
    ZeroDrivingTime,
}

/// How the average speed without standstill is computed.
#[derive(Clone, Copy, Debug, PartialEq, Eq, Structural)]
pub enum PureAverageSpeedAlgorithm {
    /// Distance divided by the driving time without standstill.
    PureDrivingTime,
    /// Mean of the local speeds between neighbouring samples, each weighted
    /// by the time between them.
    WeightedLocalSpeeds,
}

impl Default for PureAverageSpeedAlgorithm {
    fn default() -> (r: Self)
        ensures
            r == PureAverageSpeedAlgorithm::PureDrivingTime,
    {
        PureAverageSpeedAlgorithm::PureDrivingTime
    }
}

/// Seconds of a duration result, or its error.
pub open spec fn seconds_of(r: Result<Duration, AnalyseError>) -> Result<int, AnalyseError> {
    match r {
        Ok(d) => Ok(d.seconds as int),
        Err(e) => Err(e),
    }
}

/// Time from the first to the last sample of the run, whether recorded in
/// full or not.
pub open spec fn driving_time_of(s: Seq<Entry>) -> Result<int, AnalyseError> {
    if s.len() == 0 {
        Err(AnalyseError::NoEntries)
    } else {
        Ok(s.last().timestamp@ - s[0].timestamp@)
    }
}

/// Sum of the times between neighbouring samples of `s` where at least one
/// of the two is moving.
pub open spec fn moving_time(s: Seq<Entry>) -> int
    decreases s.len(),
{
    if s.len() < 2 {
        0
    } else {
        let p = s.drop_last();
        moving_time(p) + if is_moving(p.last().speed_bits) || is_moving(s.last().speed_bits) {
            s.last().timestamp@ - p.last().timestamp@
        } else {
            0
        }
    }
}

/// Driving time without standstill, over the fully recorded samples.
pub open spec fn pure_driving_time_of(s: Seq<Entry>) -> Result<int, AnalyseError> {
    let v = valid_entries(s);
    if v.len() == 0 {
        Err(AnalyseError::NoEntries)
    } else {
        Ok(moving_time(v))
    }
}

/// The first and the last fully recorded sample: the distance of the run is
/// the difference of their positions.
pub open spec fn distance_span_of(s: Seq<Entry>) -> Result<(Entry, Entry), AnalyseError> {
    let v = valid_entries(s);
    if v.len() == 0 {
        Err(AnalyseError::NoEntries)
    } else {
        Ok((v[0], v.last()))
    }
}

/// Computes the metrics of one run.
#[derive(Debug)]
pub struct ResultAnalyser {
    result: Run,
}

impl View for ResultAnalyser {
    type V = Seq<Entry>;

    closed spec fn view(&self) -> Seq<Entry> {
        self.result@
    }
}

impl ResultAnalyser {
    /// An analyser of `result`.
    pub fn new(result: Run) -> (r: ResultAnalyser)
        ensures
            r@ == result@,
    {
        ResultAnalyser { result }
    }

    /// The analysed run.
    pub fn result(&self) -> (r: &Run)
        ensures
            r@ == self@,
    {
        &self.result
    }

    /// The fully recorded samples of the run, in order.
    pub fn valid_entries(&self) -> (r: Vec<Entry>)
        ensures
            r@ == valid_entries(self@),
    {
        filter_valid_fahrt_weg_and_fahrt_speed(&self.result)
    }

    /// The first and the last fully recorded sample; `NoEntries` when there
    /// is none.
    pub fn distance_span(&self) -> (r: Result<(Entry, Entry), AnalyseError>)
        ensures
            r == distance_span_of(self@),
    {
        let valid = filter_valid_fahrt_weg_and_fahrt_speed(&self.result);
        if valid.len() == 0 {
            Err(AnalyseError::NoEntries)
        } else {
            Ok((valid[0], valid[valid.len() - 1]))
        }
    }

    /// Time from the first to the last sample, counting every sample;
    /// `NoEntries` for an empty run.
    pub fn driving_time(&self) -> (r: Result<Duration, AnalyseError>)
        ensures
            seconds_of(r) == driving_time_of(self@),
            r matches Ok(d) ==> 0 <= d.seconds <= 2 * MAX_ABS_SECONDS,
    {
        let entries = self.result.entries();
        let n = entries.len();
        if n == 0 {
            Err(AnalyseError::NoEntries)
        } else {
            let first = entries[0].timestamp.seconds();
            let last = entries[n - 1].timestamp.seconds();
            assert(entries@[0].timestamp@ <= entries@[n - 1].timestamp@);
            Ok(Duration::seconds(last as i128 - first as i128))
        }
    }

    /// Driving time without standstill: over the fully recorded samples, the
    /// sum of the times between neighbours of which at least one is moving.
    /// Zero for a single such sample; `NoEntries` when there is none.
    pub fn pure_driving_time(&self) -> (r: Result<Duration, AnalyseError>)
        ensures
            seconds_of(r) == pure_driving_time_of(self@),
            r matches Ok(d) ==> 0 <= d.seconds <= 2 * MAX_ABS_SECONDS,
    {
        let entries = self.result.entries();
        let valid = filter_valid_fahrt_weg_and_fahrt_speed(&self.result);
        proof {
            lemma_valid_entries_within(entries@);
        }
        let n = valid.len();
        if n == 0 {
            return Err(AnalyseError::NoEntries);
        }
        proof {
            assert(-MAX_ABS_SECONDS <= entries@[0].timestamp@);
            assert(entries@.last().timestamp@ <= MAX_ABS_SECONDS);
            assert(valid@.take(1).drop_last().len() == 0);
        }
        let mut total: i128 = 0;
        let mut i: usize = 0;
        while i + 1 < n
            invariant
                n == valid@.len(),
                i < n,
                valid@ == valid_entries(entries@),
                is_chronological(valid@),
                forall|k: int|
                    0 <= k < n ==> -MAX_ABS_SECONDS <= #[trigger] valid@[k].timestamp@
                        <= MAX_ABS_SECONDS,
                total == moving_time(valid@.take(i + 1)),
                0 <= total <= valid@[i as int].timestamp@ - valid@[0].timestamp@,
            decreases n - i,
        {
            let current = valid[i];
            let next = valid[i + 1];
            proof {
                let t = valid@.take(i + 2);
                assert(t.drop_last() =~= valid@.take(i + 1));
                assert(t.last() == next);
                assert(t.drop_last().last() == current);
                assert(valid@[i as int].timestamp@ <= valid@[i + 1].timestamp@);
            }
            if current.is_moving() || next.is_moving() {
                let step = next.timestamp.seconds() as i128 - current.timestamp.seconds() as i128;
                total = total + step;
            }
            i = i + 1;
        }
        assert(valid@.take(n as int) =~= valid@);
        Ok(Duration::seconds(total))
    }
}

/// The driving time without standstill never exceeds the driving time:
/// leaving out idle intervals only removes time.
pub proof fn lemma_pure_driving_time_le_driving_time(s: Seq<Entry>)
    requires
        is_chronological(s),
    ensures
        pure_driving_time_of(s) matches Ok(p) ==> driving_time_of(s) matches Ok(d) && p <= d,
{
    let v = valid_entries(s);
    lemma_valid_entries_within(s);
    if v.len() > 0 {
        lemma_moving_time_bounded(v);
        assert(s[0].timestamp@ <= v[0].timestamp@);
        assert(v[v.len() - 1].timestamp@ <= s.last().timestamp@);
    }
}

/// Along chronological samples the moving time lies between zero and the
/// time from the first sample to the last.
pub proof fn lemma_moving_time_bounded(s: Seq<Entry>)
    requires
        is_chronological(s),
        s.len() > 0,
    ensures
        0 <= moving_time(s) <= s.last().timestamp@ - s[0].timestamp@,
    decreases s.len(),
{
    if s.len() >= 2 {
        let p = s.drop_last();
        assert(is_chronological(p)) by {
            assert forall|i: int, j: int| 0 <= i <= j < p.len() implies #[trigger] p[i].timestamp@
                <= #[trigger] p[j].timestamp@ by {
                assert(s[i].timestamp@ <= s[j].timestamp@);
            }
        }
        lemma_moving_time_bounded(p);
        assert(p[0] == s[0]);
        assert(p.last().timestamp@ <= s.last().timestamp@);
    }
}

/// When every sample of a non-empty run is fully recorded, the distance is
/// measured from its first sample to its last.
pub proof fn lemma_distance_span_of_fully_recorded(s: Seq<Entry>)
    requires
        s.len() > 0,
        forall|i: int| 0 <= i < s.len() ==> is_valid(#[trigger] s[i]),
    ensures
        distance_span_of(s) == Ok::<(Entry, Entry), AnalyseError>((s[0], s.last())),
{
    lemma_valid_entries_of_fully_recorded(s);
}

} // verus!
