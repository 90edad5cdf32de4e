//! Harvest decision engine.
//!
//! A processor decides, from the current state and the wall clock alone,
//! which harvest units to emit and what the next state is.  Dispatch is a
//! closed set of variants selected by the configured event type; an
//! unknown selector is an explicit error, not a crash.  The engine is
//! invoked at most once per event delivery and never retries internally.

use vstd::prelude::*;

use crate::bytestr::{append_bytes, bytes_eq, copy_bytes};
use crate::digits::{dec_digits, u64_to_dec};
use crate::errors::HarvestError;
use crate::state::{HarvestState, StateView};

verus! {

/// Seconds the harvest window trails the wall clock, letting upstream
/// material settle before it is cut.
pub const SETTLE_BUFFER_SECS: u64 = 30;

/// Length in seconds of the window each synthetic harvest unit covers.
pub const HARVEST_SPAN_SECS: u64 = 180;

/// One unit of harvest work: a labelled time window to cut.  Produced by
/// a processor and consumed immediately by dispatch; never persisted.
pub struct HarvestJob {
    /// Human-meaningful name of the unit, derived from the updated
    /// sequence number.
    pub match_name: Vec<u8>,
    /// Start of the window to harvest, epoch seconds.
    pub start_time: u64,
    /// End of the window to harvest, epoch seconds.
    pub end_time: u64,
}

/// Mathematical image of a [`HarvestJob`].
pub ghost struct JobView {
    pub match_name: Seq<u8>,
    pub start_time: u64,
    pub end_time: u64,
}

impl View for HarvestJob {
    type V = JobView;

    open spec fn view(&self) -> JobView {
        JobView {
            match_name: self.match_name@,
            start_time: self.start_time,
            end_time: self.end_time,
        }
    }
}

/// The label of the synthetic unit emitted at sequence `n`: `test`
/// followed by the sequence digits.
pub open spec fn test_label(n: u64) -> Seq<u8> {
    seq![116u8, 101u8, 115u8, 116u8] + dec_digits(n as nat)
}

/// The state after one advancement: sequence one higher, kind carried
/// forward.
pub open spec fn advanced_state(s: StateView) -> StateView {
    StateView {
        last_harvested_match: (s.last_harvested_match + 1) as u64,
        last_harvested_match_type: s.last_harvested_match_type,
    }
}

/// The unit the synthetic processor emits at sequence `n` and wall clock
/// `now`: the three-minute span ending half a minute before `now`.
pub open spec fn synthetic_job(n: u64, now: u64) -> JobView {
    JobView {
        match_name: test_label(n),
        start_time: (now - HARVEST_SPAN_SECS - SETTLE_BUFFER_SECS) as u64,
        end_time: (now - SETTLE_BUFFER_SECS) as u64,
    }
}

/// The closed set of harvest decision processors.
#[derive(Clone, Copy, Debug, PartialEq, Eq, Structural)]
pub enum Processor {
    /// Feed not yet implemented: decides no work and leaves state alone.
    Ftc,
    /// Synthetic processor: always advances the sequence by one and emits
    /// exactly one unit.
    Test,
}

/// The event-type selector of the feed processor.
pub open spec fn ftc_tag() -> Seq<u8> {
    seq![70u8, 84u8, 67u8]
}

/// The event-type selector of the synthetic processor.
pub open spec fn test_tag() -> Seq<u8> {
    seq![84u8, 101u8, 115u8, 116u8]
}

/// Which processor an event-type selector names, or an explicit
/// unsupported-variant error.
pub open spec fn processor_for(event_type: Seq<u8>) -> Result<Processor, HarvestError> {
    if event_type == ftc_tag() {
        Ok(Processor::Ftc)
    } else if event_type == test_tag() {
        Ok(Processor::Test)
    } else {
        Err(HarvestError::UnsupportedEventType)
    }
}

impl Processor {
    /// Selects the processor named by the configured event type.
    pub fn from_event_type(event_type: &Vec<u8>) -> (r: Result<Processor, HarvestError>)
        ensures
            r == processor_for(event_type@),
    {
        let mut ftc: Vec<u8> = Vec::new();
        ftc.push(70);
        ftc.push(84);
        ftc.push(67);
        proof {
            assert(ftc@ =~= ftc_tag());
        }
        if bytes_eq(event_type, &ftc) {
            return Ok(Processor::Ftc);
        }
        let mut test: Vec<u8> = Vec::new();
        test.push(84);
        test.push(101);
        test.push(115);
        test.push(116);
        proof {
            assert(test@ =~= test_tag());
        }
        if bytes_eq(event_type, &test) {
            return Ok(Processor::Test);
        }
        Err(HarvestError::UnsupportedEventType)
    }

    /// Decides the units to emit and the next state, as a pure function
    /// of the current state and the wall clock.  The feed variant decides
    /// no work; the synthetic variant advances the sequence by one and
    /// emits one unit labelled with the new sequence, covering the
    /// three-minute span that ends half a minute before `now`.
    pub fn decide(&self, state: &HarvestState, now: u64) -> (r: (HarvestState, Vec<HarvestJob>))
        requires
            self is Test ==> state.last_harvested_match < u64::MAX,
            self is Test ==> now >= HARVEST_SPAN_SECS + SETTLE_BUFFER_SECS,
        ensures
            self is Ftc ==> r.0@ == state@ && r.1@.len() == 0,
            self is Test ==> {
                &&& r.0@ == advanced_state(state@)
                &&& r.1@.len() == 1
                &&& r.1@[0]@ == synthetic_job(advanced_state(state@).last_harvested_match, now)
            },
    {
        match self {
            Processor::Ftc => (state.duplicate(), Vec::new()),
            Processor::Test => {
                let new_state = HarvestState {
                    last_harvested_match: state.last_harvested_match + 1,
                    last_harvested_match_type: copy_bytes(&state.last_harvested_match_type),
                };
                let mut label: Vec<u8> = Vec::new();
                label.push(116);
                label.push(101);
                label.push(115);
                label.push(116);
                let digits = u64_to_dec(new_state.last_harvested_match);
                append_bytes(&mut label, &digits);
                proof {
                    assert(label@ =~= test_label(new_state.last_harvested_match));
                }
                let job = HarvestJob {
                    match_name: label,
                    start_time: now - HARVEST_SPAN_SECS - SETTLE_BUFFER_SECS,
                    end_time: now - SETTLE_BUFFER_SECS,
                };
                let mut jobs: Vec<HarvestJob> = Vec::new();
                jobs.push(job);
                (new_state, jobs)
            },
        }
    }
}

/// Strict monotonicity of the synthetic processor: advancing a state with
/// sequence N twice yields sequence N+1 and then N+2 — strictly
/// increasing, never decreasing — while the kind tag is carried forward.
pub proof fn lemma_synthetic_advances_monotonic(s: StateView)
    requires
        s.last_harvested_match + 2 <= u64::MAX,
    ensures
        advanced_state(s).last_harvested_match == s.last_harvested_match + 1,
        advanced_state(advanced_state(s)).last_harvested_match == s.last_harvested_match + 2,
        s.last_harvested_match < advanced_state(s).last_harvested_match,
        advanced_state(s).last_harvested_match < advanced_state(
            advanced_state(s),
        ).last_harvested_match,
        advanced_state(s).last_harvested_match_type == s.last_harvested_match_type,
        advanced_state(advanced_state(s)).last_harvested_match_type == s.last_harvested_match_type,
{
}

} // verus!
