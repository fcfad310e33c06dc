//! Telemetry samples of one recorded run, and the subsequence of samples whose
//! position and speed were both recorded.
//!
//! Position (metres along the route) and speed (metres per second) are
//! recorded as IEEE 754 single-precision values. A run keeps them as their bit
//! patterns, so every test the analysis makes of them is exact; the value `-1`
//! marks a field that was not recorded.

use vstd::prelude::*;
use crate::timestamp::{Timestamp, MAX_ABS_SECONDS};

verus! {

/// Bit pattern of the single-precision value `-1`, the mark of an unrecorded field.
pub const NOT_RECORDED_BITS: u32 = 0xBF80_0000;

/// Bit pattern of single-precision positive infinity: the largest pattern of
/// a value greater than zero.
pub const POSITIVE_INFINITY_BITS: u32 = 0x7F80_0000;

/// The field holds a recorded value: it does not compare equal to `-1`.
pub open spec fn is_recorded(bits: u32) -> bool {
    bits != NOT_RECORDED_BITS
}

/// The value compares greater than zero: its sign bit is clear, it is not
/// zero and not a NaN.
pub open spec fn is_moving(bits: u32) -> bool {
    0 < bits <= POSITIVE_INFINITY_BITS
}

/// One telemetry sample of a run.
#[derive(Clone, Copy, Debug, PartialEq)]
pub struct Entry {
    /// Distance along the route in metres, as single-precision bits.
    pub position_bits: u32,
    /// When the sample was taken.
    pub timestamp: Timestamp,
    /// Speed in metres per second, as single-precision bits.
    pub speed_bits: u32,
}

/// Both position and speed of the sample were recorded.
pub open spec fn is_valid(e: Entry) -> bool {
    is_recorded(e.position_bits) && is_recorded(e.speed_bits)
}

/// The samples of `s` whose position and speed were recorded, in their order.
pub open spec fn valid_entries(s: Seq<Entry>) -> Seq<Entry>
    decreases s.len(),
{
    if s.len() == 0 {
        Seq::empty()
    } else if is_valid(s.last()) {
        valid_entries(s.drop_last()).push(s.last())
    } else {
        valid_entries(s.drop_last())
    }
}

/// Timestamps never decrease along `s`.
pub open spec fn is_chronological(s: Seq<Entry>) -> bool {
    forall|i: int, j: int|
        0 <= i <= j < s.len() ==> #[trigger] s[i].timestamp@ <= #[trigger] s[j].timestamp@
}

/// Every timestamp of `s` lies within `MAX_ABS_SECONDS` of the origin.
pub open spec fn timestamps_in_range(s: Seq<Entry>) -> bool {
    forall|i: int|
        0 <= i < s.len() ==> -MAX_ABS_SECONDS <= #[trigger] s[i].timestamp@ <= MAX_ABS_SECONDS
}

impl Entry {
    /// A sample of the given position bits, time and speed bits.
    pub fn new(position_bits: u32, timestamp: Timestamp, speed_bits: u32) -> (r: Entry)
        ensures
            r == (Entry { position_bits, timestamp, speed_bits }),
    {
        Entry { position_bits, timestamp, speed_bits }
    }

    /// Both position and speed of this sample were recorded.
    pub fn is_valid(&self) -> (r: bool)
        ensures
            r == is_valid(*self),
    {
        self.position_bits != NOT_RECORDED_BITS && self.speed_bits != NOT_RECORDED_BITS
    }

    /// The recorded speed of this sample is greater than zero.
    pub fn is_moving(&self) -> (r: bool)
        ensures
            r == is_moving(self.speed_bits),
    {
        0 < self.speed_bits && self.speed_bits <= POSITIVE_INFINITY_BITS
    }
}

/// The samples of one recorded run, in recording order, which is
/// chronological order.
#[derive(Debug)]
pub struct Run {
    entries: Vec<Entry>,
}

impl View for Run {
    type V = Seq<Entry>;

    closed spec fn view(&self) -> Seq<Entry> {
        self.entries@
    }
}

impl Run {
    #[verifier::type_invariant]
    spec fn well_formed(self) -> bool {
        is_chronological(self.entries@) && timestamps_in_range(self.entries@)
    }

    /// The run of the given samples, or `None` when a timestamp is earlier
    /// than the one before it.
    pub fn new(entries: Vec<Entry>) -> (r: Option<Run>)
        ensures
            r is Some <==> is_chronological(entries@),
            r matches Some(run) ==> run@ == entries@,
    {
        let n = entries.len();
        let mut previous: i64 = 0;
        let mut i: usize = 0;
        while i < n
            invariant
                n == entries@.len(),
                i <= n,
                is_chronological(entries@.take(i as int)),
                timestamps_in_range(entries@.take(i as int)),
                i > 0 ==> previous as int == entries@[i - 1].timestamp@,
            decreases n - i,
        {
            let current = entries[i].timestamp.seconds();
            if i > 0 && current < previous {
                assert(entries@[i - 1].timestamp@ > entries@[i as int].timestamp@);
                return None;
            }
            assert forall|a: int, b: int| 0 <= a <= b < i + 1 implies #[trigger] entries@.take(
                i + 1,
            )[a].timestamp@ <= #[trigger] entries@.take(i + 1)[b].timestamp@ by {
                if b == i && a < i {
                    assert(entries@.take(i as int)[a].timestamp@ <= entries@.take(
                        i as int,
                    )[i - 1].timestamp@);
                }
                if b < i {
                    assert(entries@.take(i as int)[a].timestamp@ <= entries@.take(
                        i as int,
                    )[b].timestamp@);
                }
            }
            assert forall|a: int| 0 <= a < i + 1 implies -MAX_ABS_SECONDS <= #[trigger] entries@.take(
                i + 1,
            )[a].timestamp@ <= MAX_ABS_SECONDS by {
                if a < i {
                    assert(entries@.take(i as int)[a] == entries@[a]);
                }
            }
            previous = current;
            i = i + 1;
        }
        assert(entries@.take(n as int) =~= entries@);
        Some(Run { entries })
    }

    /// The samples of the run.
    pub fn entries(&self) -> (r: &Vec<Entry>)
        ensures
            r@ == self@,
            is_chronological(r@),
            timestamps_in_range(r@),
    {
        proof {
            use_type_invariant(self);
        }
        &self.entries
    }

    /// Number of samples in the run.
    pub fn len(&self) -> (r: usize)
        ensures
            r == self@.len(),
    {
        self.entries.len()
    }
}

/// The samples of `run` whose position and speed were both recorded.
pub fn filter_valid_fahrt_weg_and_fahrt_speed(run: &Run) -> (r: Vec<Entry>)
    ensures
        r@ == valid_entries(run@),
{
    let entries = run.entries();
    let mut valid: Vec<Entry> = Vec::new();
    let mut i: usize = 0;
    while i < entries.len()
        invariant
            i <= entries@.len(),
            valid@ == valid_entries(entries@.take(i as int)),
        decreases entries@.len() - i,
    {
        assert(entries@.take(i + 1).drop_last() =~= entries@.take(i as int));
        let e = entries[i];
        if e.is_valid() {
            valid.push(e);
        }
        i = i + 1;
    }
    assert(entries@.take(entries@.len() as int) =~= entries@);
    valid
}

/// Each sample of `valid_entries(s)` is a sample of `s`: it has an index in
/// `s`, and the indices grow along the subsequence.
pub proof fn lemma_valid_entries_within(s: Seq<Entry>)
    requires
        is_chronological(s),
    ensures
        is_chronological(valid_entries(s)),
        valid_entries(s).len() <= s.len(),
        forall|k: int|
            0 <= k < valid_entries(s).len() ==> s[0].timestamp@ <= #[trigger] valid_entries(
                s,
            )[k].timestamp@ <= s.last().timestamp@,
    decreases s.len(),
{
    if s.len() > 0 {
        let p = s.drop_last();
        assert(is_chronological(p)) by {
            assert forall|i: int, j: int| 0 <= i <= j < p.len() implies #[trigger] p[i].timestamp@
                <= #[trigger] p[j].timestamp@ by {
                assert(s[i].timestamp@ <= s[j].timestamp@);
            }
        }
        lemma_valid_entries_within(p);
        let vp = valid_entries(p);
        if p.len() > 0 {
            assert(s[0].timestamp@ <= p.last().timestamp@);
            assert(p.last().timestamp@ <= s.last().timestamp@);
            assert(p[0] == s[0]);
        }
        assert forall|k: int| 0 <= k < vp.len() implies s[0].timestamp@ <= #[trigger] vp[k].timestamp@
            <= s.last().timestamp@ by {
            assert(p.len() > 0);
        }
        if is_valid(s.last()) {
            let v = vp.push(s.last());
            assert(v == valid_entries(s));
            assert(s[0].timestamp@ <= s.last().timestamp@);
            assert forall|i: int, j: int| 0 <= i <= j < v.len() implies #[trigger] v[i].timestamp@
                <= #[trigger] v[j].timestamp@ by {
                if j < vp.len() {
                    assert(vp[i].timestamp@ <= vp[j].timestamp@);
                } else if i < vp.len() {
                    assert(vp[i].timestamp@ <= s.last().timestamp@);
                }
            }
        }
    }
}

/// When every sample of `s` has its position and speed recorded, the
/// filtered subsequence is `s` itself.
pub proof fn lemma_valid_entries_of_fully_recorded(s: Seq<Entry>)
    requires
        forall|i: int| 0 <= i < s.len() ==> is_valid(#[trigger] s[i]),
    ensures
        valid_entries(s) == s,
    decreases s.len(),
{
    if s.len() > 0 {
        let p = s.drop_last();
        assert(is_valid(s[s.len() - 1]));
        lemma_valid_entries_of_fully_recorded(p);
        assert(p.push(s.last()) =~= s);
    }
}

} // verus!
