//! Whole sessions over a finite script of host replies, and the session
//! laws that hold of every such script.
//!
//! The live driver feeds a [`crate::session::Controller`] one host reply at
//! a time as they happen. [`run`] is the same consumption over a reply
//! sequence given up front, so every end-to-end guarantee — stop issued
//! exactly once, all-or-nothing results — is stated and proved here over
//! arbitrary scripts.

use vstd::prelude::*;

use crate::device::{Device, DeviceView};
use crate::errors::ScanError;
use crate::exporter::export;
use crate::selector::{select_adapter, AdapterId, EnumerationFault};
use crate::session::{
    init_model, lemma_step_preserves_wf, spec_step, wf_model, Controller, EventView, HostEvent,
    Model, Phase,
};

verus! {

/// One scripted host reply: what the host reported, and the elapsed time in
/// whole time units at which it arrived.
#[derive(Debug)]
pub struct Stimulus {
    pub now: u64,
    pub event: HostEvent,
}

/// Mathematical image of a [`Stimulus`].
#[verifier::ext_equal]
pub ghost struct StimulusView {
    pub now: u64,
    pub event: EventView,
}

impl View for Stimulus {
    type V = StimulusView;

    open spec fn view(&self) -> StimulusView {
        StimulusView { now: self.now, event: self.event@ }
    }
}

/// The views of a stimulus script.
pub open spec fn stim_views(s: Seq<Stimulus>) -> Seq<StimulusView> {
    s.map_values(|st: Stimulus| st@)
}

/// A session folded over a script, first reply to last. Terminal phases
/// absorb further replies unchanged.
pub open spec fn spec_run(m: Model, stimuli: Seq<StimulusView>) -> Model
    decreases stimuli.len(),
{
    if stimuli.len() == 0 {
        m
    } else {
        spec_run(spec_step(m, stimuli[0].now, stimuli[0].event).0, stimuli.drop_first())
    }
}

/// Appending one reply to a script is one more step at its end.
pub proof fn lemma_spec_run_snoc(m: Model, s: Seq<StimulusView>, x: StimulusView)
    ensures
        spec_run(m, s.push(x)) == spec_step(spec_run(m, s), x.now, x.event).0,
    decreases s.len(),
{
    let p = s.push(x);
    if s.len() == 0 {
        assert(p[0] == x);
        assert(p.drop_first() =~= Seq::<StimulusView>::empty());
        assert(spec_run(m, p) == spec_run(spec_step(m, p[0].now, p[0].event).0, p.drop_first()));
        assert(spec_run(spec_step(m, x.now, x.event).0, p.drop_first())
            == spec_step(m, x.now, x.event).0);
        assert(spec_run(m, s) == m);
    } else {
        let q = spec_step(m, s[0].now, s[0].event).0;
        assert(p[0] == s[0]);
        assert(p.drop_first() =~= s.drop_first().push(x));
        assert(spec_run(m, p) == spec_run(q, p.drop_first()));
        lemma_spec_run_snoc(q, s.drop_first(), x);
        assert(spec_run(m, s) == spec_run(q, s.drop_first()));
    }
}

/// A whole run keeps the controller invariant.
pub proof fn lemma_spec_run_wf(m: Model, stimuli: Seq<StimulusView>)
    requires
        wf_model(m),
    ensures
        wf_model(spec_run(m, stimuli)),
    decreases stimuli.len(),
{
    if stimuli.len() != 0 {
        lemma_step_preserves_wf(m, stimuli[0].now, stimuli[0].event);
        lemma_spec_run_wf(spec_step(m, stimuli[0].now, stimuli[0].event).0, stimuli.drop_first());
    }
}

/// Guaranteed stop: for every duration bound and every script of host
/// replies — including every forced failure after a successful start — a
/// session asks the host to stop the scan at most once; exactly once
/// whenever the scan started and the session reached a verdict (or is in
/// the middle of stopping); and never when the scan never started.
pub proof fn lemma_guaranteed_stop(duration: u64, stimuli: Seq<StimulusView>)
    ensures
        ({
            let fm = spec_run(init_model(duration), stimuli);
            &&& fm.stops_issued <= 1
            &&& fm.starts_issued <= 1
            &&& (fm.started && (fm.phase is Completed || fm.phase is Failed
                || fm.phase is Stopping) ==> fm.stops_issued == 1)
            &&& (!fm.started ==> fm.stops_issued == 0)
        }),
{
    lemma_spec_run_wf(init_model(duration), stimuli);
}

/// What a finished session hands the caller: the full device list on
/// success, a single error otherwise — never both, never a partial list.
pub open spec fn spec_outcome_of(m: Model) -> Option<Result<Seq<DeviceView>, ScanError>> {
    match m.phase {
        Phase::Completed => Some(Ok(m.devices)),
        Phase::Failed(e) => Some(Err(e)),
        _ => None,
    }
}

/// How a scripted session ended.
pub struct SessionOutcome {
    /// The session's verdict, or `None` when the script ran out before the
    /// session reached one.
    pub outcome: Option<Result<Vec<Device>, ScanError>>,
    /// How often the controller asked the host to start the scan.
    pub starts_issued: u64,
    /// How often the controller asked the host to stop the scan.
    pub stops_issued: u64,
}

impl SessionOutcome {
    /// Mathematical image of the verdict.
    pub open spec fn outcome_view(self) -> Option<Result<Seq<DeviceView>, ScanError>> {
        match self.outcome {
            None => None,
            Some(Ok(v)) => Some(Ok(v@.map_values(|d: Device| d@))),
            Some(Err(e)) => Some(Err(e)),
        }
    }
}

/// Drive one session over a script of host replies: exactly the fold
/// [`spec_run`], with the verdict, start count and stop count read off the
/// final state.
pub fn run(duration: u64, stimuli: &Vec<Stimulus>) -> (out: SessionOutcome)
    ensures
        ({
            let fm = spec_run(init_model(duration), stim_views(stimuli@));
            &&& wf_model(fm)
            &&& out.starts_issued as nat == fm.starts_issued
            &&& out.stops_issued as nat == fm.stops_issued
            &&& out.outcome_view() == spec_outcome_of(fm)
        }),
{
    let mut ctrl = Controller::new(duration);
    let n = stimuli.len();
    let mut i: usize = 0;
    while i < n
        invariant
            n == stimuli@.len(),
            i <= n,
            ctrl.wf(),
            ctrl@ == spec_run(init_model(duration), stim_views(stimuli@).take(i as int)),
        decreases n - i,
    {
        let s = &stimuli[i];
        let _a = ctrl.step(s.now, &s.event);
        proof {
            let views = stim_views(stimuli@);
            assert(views.take(i as int).push(views[i as int]) =~= views.take(i as int + 1));
            lemma_spec_run_snoc(init_model(duration), views.take(i as int), views[i as int]);
        }
        i = i + 1;
    }
    proof {
        assert(stim_views(stimuli@).take(n as int) =~= stim_views(stimuli@));
        lemma_spec_run_wf(init_model(duration), stim_views(stimuli@));
    }
    let outcome = match ctrl.phase() {
        Phase::Completed => Some(Ok(export(ctrl.registry()))),
        Phase::Failed(e) => Some(Err(e)),
        _ => None,
    };
    SessionOutcome {
        outcome,
        starts_issued: ctrl.starts_issued(),
        stops_issued: ctrl.stops_issued(),
    }
}

/// One whole inbound scan operation from plain host values: select the
/// first enumerated adapter, then drive a session over the script. When
/// selection fails, no session runs: the scan is never started and never
/// stopped.
pub fn scan_session(
    enumeration: Result<Vec<AdapterId>, EnumerationFault>,
    duration: u64,
    stimuli: &Vec<Stimulus>,
) -> (out: SessionOutcome)
    ensures
        ({
            let fm = spec_run(init_model(duration), stim_views(stimuli@));
            match enumeration {
                Ok(v) => if v@.len() == 0 {
                    &&& out.outcome_view() == Some(
                        Result::<Seq<DeviceView>, ScanError>::Err(ScanError::NoAdapterFound),
                    )
                    &&& out.starts_issued == 0
                    &&& out.stops_issued == 0
                } else {
                    &&& wf_model(fm)
                    &&& out.starts_issued as nat == fm.starts_issued
                    &&& out.stops_issued as nat == fm.stops_issued
                    &&& out.outcome_view() == spec_outcome_of(fm)
                },
                Err(_) => {
                    &&& out.outcome_view() == Some(
                        Result::<Seq<DeviceView>, ScanError>::Err(
                            ScanError::AdapterEnumerationFailed,
                        ),
                    )
                    &&& out.starts_issued == 0
                    &&& out.stops_issued == 0
                },
            }
        }),
{
    match select_adapter(enumeration) {
        Err(e) => SessionOutcome { outcome: Some(Err(e)), starts_issued: 0, stops_issued: 0 },
        Ok(_adapter) => run(duration, stimuli),
    }
}

} // verus!
