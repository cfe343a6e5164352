//! The scan session controller, as a verified state machine.
//!
//! The controller never touches the radio itself. It is driven step by step:
//! the caller reports what the host radio just did (a [`HostEvent`]) together
//! with the wall-clock time units elapsed since the session began, and the
//! controller answers with the next [`Action`] the caller must perform. Every
//! decision of the session — when to stop, which error to surface, what to
//! feed the registry — lives here, where it is proved.

use vstd::prelude::*;

use crate::device::{DeviceId, DeviceView, Observation, ObservationView};
use crate::errors::ScanError;
use crate::registry::{distinct_addresses, lemma_upsert_distinct, spec_upsert, Registry};

verus! {

/// Where the session stands. `Stopping` carries the error to surface once
/// the radio is stopped, or `None` when the session is ending successfully.
#[derive(Clone, Copy, PartialEq, Eq, Debug)]
pub enum Phase {
    Idle,
    Starting,
    Subscribing,
    Scanning,
    Resolving(DeviceId),
    Stopping(Option<ScanError>),
    Completed,
    Failed(ScanError),
}

/// What the driver must do next on the host radio.
#[derive(Clone, Copy, PartialEq, Eq, Structural, Debug)]
pub enum Action {
    /// Start the hardware scan.
    StartScan,
    /// Subscribe to the discovery event stream.
    Subscribe,
    /// Wait for the next discovery event.
    AwaitEvent,
    /// Resolve the properties of the given identity.
    Resolve(DeviceId),
    /// Idle briefly (cooperative backoff), then report again.
    Pause,
    /// Stop the hardware scan.
    StopScan,
    /// The session is over; stop driving.
    Finish,
}

/// What the host radio reported back for the controller's last action.
#[derive(Debug)]
pub enum HostEvent {
    /// The scan started.
    Started,
    /// Starting the scan errored.
    StartFailed,
    /// The discovery event stream was obtained.
    Subscribed,
    /// Subscribing to the event stream errored.
    SubscribeFailed,
    /// A discovery event named this identity.
    Discovered(DeviceId),
    /// Some other event kind arrived; the session ignores it.
    OtherAdvert,
    /// The stream yielded nothing for the moment.
    NoEvent,
    /// The event stream closed for good.
    StreamEnded,
    /// Properties resolved: the observation, or `None` when the peripheral
    /// had no property set.
    Resolved(Option<Observation>),
    /// Resolving the properties errored.
    ResolveFailed,
    /// The scan stopped.
    Stopped,
    /// Stopping the scan errored.
    StopFailed,
}

/// Mathematical image of a [`HostEvent`].
pub ghost enum EventView {
    Started,
    StartFailed,
    Subscribed,
    SubscribeFailed,
    Discovered(DeviceId),
    OtherAdvert,
    NoEvent,
    StreamEnded,
    Resolved(Option<ObservationView>),
    ResolveFailed,
    Stopped,
    StopFailed,
}

impl View for HostEvent {
    type V = EventView;

    open spec fn view(&self) -> EventView {
        match self {
            HostEvent::Started => EventView::Started,
            HostEvent::StartFailed => EventView::StartFailed,
            HostEvent::Subscribed => EventView::Subscribed,
            HostEvent::SubscribeFailed => EventView::SubscribeFailed,
            HostEvent::Discovered(id) => EventView::Discovered(*id),
            HostEvent::OtherAdvert => EventView::OtherAdvert,
            HostEvent::NoEvent => EventView::NoEvent,
            HostEvent::StreamEnded => EventView::StreamEnded,
            HostEvent::Resolved(o) => EventView::Resolved(
                match o {
                    Some(ob) => Some(ob@),
                    None => None,
                },
            ),
            HostEvent::ResolveFailed => EventView::ResolveFailed,
            HostEvent::Stopped => EventView::Stopped,
            HostEvent::StopFailed => EventView::StopFailed,
        }
    }
}

/// Mathematical image of a [`Controller`]: its phase, bound, registry
/// contents, and how often it has asked the host to start or stop the scan.
#[verifier::ext_equal]
pub ghost struct Model {
    pub phase: Phase,
    pub duration: u64,
    pub devices: Seq<DeviceView>,
    pub started: bool,
    pub starts_issued: nat,
    pub stops_issued: nat,
}

/// A session that has not spoken to the host yet.
pub open spec fn init_model(duration: u64) -> Model {
    Model {
        phase: Phase::Idle,
        duration: duration,
        devices: Seq::<DeviceView>::empty(),
        started: false,
        starts_issued: 0,
        stops_issued: 0,
    }
}

/// The controller invariant. Beyond registry well-formedness it pins the
/// session's core guarantee: the scan is started at most once, and stopped
/// exactly once on every path that leaves `Scanning` — so a terminal phase
/// of a started session has issued exactly one stop.
pub open spec fn wf_model(m: Model) -> bool {
    &&& m.starts_issued <= 1
    &&& m.stops_issued <= 1
    &&& (m.started ==> m.starts_issued == 1)
    &&& distinct_addresses(m.devices)
    &&& match m.phase {
        Phase::Idle => !m.started && m.starts_issued == 0 && m.stops_issued == 0
            && m.devices.len() == 0,
        Phase::Starting => !m.started && m.starts_issued == 1 && m.stops_issued == 0
            && m.devices.len() == 0,
        Phase::Subscribing => m.started && m.stops_issued == 0 && m.devices.len() == 0,
        Phase::Scanning => m.started && m.stops_issued == 0,
        Phase::Resolving(_) => m.started && m.stops_issued == 0,
        Phase::Stopping(_) => m.started && m.stops_issued == 1,
        Phase::Completed => m.started && m.stops_issued == 1,
        Phase::Failed(_) => (m.started && m.stops_issued == 1)
            || (!m.started && m.stops_issued == 0),
    }
}

/// The transition table: given the session's state, the elapsed time in
/// whole time units, and the host's report, the next state and the next
/// action. The time bound is re-checked before every event await, so in-
/// flight work completes but no new wait on the stream begins past the
/// bound. A report that the current phase does not expect is ignored (the
/// state is kept and the driver is told to pause).
pub open spec fn spec_step(m: Model, now: u64, ev: EventView) -> (Model, Action) {
    match m.phase {
        Phase::Idle => (
            Model { phase: Phase::Starting, starts_issued: m.starts_issued + 1, ..m },
            Action::StartScan,
        ),
        Phase::Starting => match ev {
            EventView::Started => (
                Model { phase: Phase::Subscribing, started: true, ..m },
                Action::Subscribe,
            ),
            EventView::StartFailed => (
                Model { phase: Phase::Failed(ScanError::ScanStartFailed), ..m },
                Action::Finish,
            ),
            _ => (m, Action::Pause),
        },
        Phase::Subscribing => match ev {
            EventView::Subscribed => if now >= m.duration {
                (
                    Model {
                        phase: Phase::Stopping(None),
                        stops_issued: m.stops_issued + 1,
                        ..m
                    },
                    Action::StopScan,
                )
            } else {
                (Model { phase: Phase::Scanning, ..m }, Action::AwaitEvent)
            },
            EventView::SubscribeFailed => (
                Model {
                    phase: Phase::Stopping(Some(ScanError::EventStreamUnavailable)),
                    stops_issued: m.stops_issued + 1,
                    ..m
                },
                Action::StopScan,
            ),
            _ => (m, Action::Pause),
        },
        Phase::Scanning => if now >= m.duration {
            (
                Model { phase: Phase::Stopping(None), stops_issued: m.stops_issued + 1, ..m },
                Action::StopScan,
            )
        } else {
            match ev {
                EventView::Discovered(id) => (
                    Model { phase: Phase::Resolving(id), ..m },
                    Action::Resolve(id),
                ),
                EventView::StreamEnded => (
                    Model {
                        phase: Phase::Stopping(None),
                        stops_issued: m.stops_issued + 1,
                        ..m
                    },
                    Action::StopScan,
                ),
                EventView::NoEvent => (m, Action::Pause),
                _ => (m, Action::AwaitEvent),
            }
        },
        Phase::Resolving(_) => match ev {
            EventView::Resolved(Some(o)) => if now >= m.duration {
                (
                    Model {
                        phase: Phase::Stopping(None),
                        devices: spec_upsert(m.devices, o),
                        stops_issued: m.stops_issued + 1,
                        ..m
                    },
                    Action::StopScan,
                )
            } else {
                (
                    Model { phase: Phase::Scanning, devices: spec_upsert(m.devices, o), ..m },
                    Action::AwaitEvent,
                )
            },
            EventView::Resolved(None) => if now >= m.duration {
                (
                    Model {
                        phase: Phase::Stopping(None),
                        stops_issued: m.stops_issued + 1,
                        ..m
                    },
                    Action::StopScan,
                )
            } else {
                (Model { phase: Phase::Scanning, ..m }, Action::AwaitEvent)
            },
            EventView::ResolveFailed => (
                Model {
                    phase: Phase::Stopping(Some(ScanError::PropertyResolutionFailed)),
                    stops_issued: m.stops_issued + 1,
                    ..m
                },
                Action::StopScan,
            ),
            _ => (m, Action::Pause),
        },
        Phase::Stopping(pending) => match ev {
            EventView::Stopped => match pending {
                None => (Model { phase: Phase::Completed, ..m }, Action::Finish),
                Some(e) => (Model { phase: Phase::Failed(e), ..m }, Action::Finish),
            },
            EventView::StopFailed => match pending {
                None => (
                    Model { phase: Phase::Failed(ScanError::ScanStopFailed), ..m },
                    Action::Finish,
                ),
                Some(e) => (Model { phase: Phase::Failed(e), ..m }, Action::Finish),
            },
            _ => (m, Action::Pause),
        },
        Phase::Completed => (m, Action::Finish),
        Phase::Failed(_) => (m, Action::Finish),
    }
}

/// One step keeps the controller invariant.
pub proof fn lemma_step_preserves_wf(m: Model, now: u64, ev: EventView)
    requires
        wf_model(m),
    ensures
        wf_model(spec_step(m, now, ev).0),
{
    match ev {
        EventView::Resolved(Some(o)) => {
            lemma_upsert_distinct(m.devices, o);
        },
        _ => {},
    }
}

/// Past the bound the controller never waits on the event stream again:
/// only a potentially endless stream could delay the session, so every
/// action requested from then on leads to the stop call and the verdict.
pub proof fn lemma_no_await_past_bound(m: Model, now: u64, ev: EventView)
    requires
        wf_model(m),
        now >= m.duration,
    ensures
        spec_step(m, now, ev).1 != Action::AwaitEvent,
{
}

/// Time-bound termination: once the elapsed time reaches the bound, a
/// scanning session's very next action is the stop call — whatever the host
/// reports — and the step after the stop outcome is terminal.
pub proof fn lemma_time_bound(m: Model, s1now: u64, s1ev: EventView, s2now: u64, s2ev: EventView)
    requires
        wf_model(m),
        m.phase is Scanning,
        s1now >= m.duration,
        s2ev is Stopped || s2ev is StopFailed,
    ensures
        ({
            let (m1, a1) = spec_step(m, s1now, s1ev);
            let (m2, a2) = spec_step(m1, s2now, s2ev);
            &&& a1 == Action::StopScan
            &&& m1.phase is Stopping
            &&& a2 == Action::Finish
            &&& (s2ev is Stopped ==> m2.phase is Completed)
            &&& (s2ev is StopFailed ==> m2.phase is Failed)
            &&& m2.stops_issued == 1
        }),
{
}

/// Owns the scan lifecycle: phase, time bound, and the device registry it
/// exclusively drives for the duration of the session.
pub struct Controller {
    phase: Phase,
    duration: u64,
    registry: Registry,
    started: bool,
    starts_issued: u64,
    stops_issued: u64,
}

impl View for Controller {
    type V = Model;

    closed spec fn view(&self) -> Model {
        Model {
            phase: self.phase,
            duration: self.duration,
            devices: self.registry@,
            started: self.started,
            starts_issued: self.starts_issued as nat,
            stops_issued: self.stops_issued as nat,
        }
    }
}

impl Controller {
    /// The controller invariant, on the model.
    pub open spec fn wf(&self) -> bool {
        wf_model(self@)
    }

    /// A fresh session with the given duration bound, in time units.
    pub fn new(duration: u64) -> (c: Controller)
        ensures
            c@ == init_model(duration),
            c.wf(),
    {
        let c = Controller {
            phase: Phase::Idle,
            duration: duration,
            registry: Registry::new(),
            started: false,
            starts_issued: 0,
            stops_issued: 0,
        };
        proof {
            assert(c@ =~= init_model(duration));
        }
        c
    }

    /// Drive the session one step: report the elapsed time and the host's
    /// reply to the previous action, receive the next action. The step is
    /// exactly the transition table [`spec_step`].
    pub fn step(&mut self, now: u64, event: &HostEvent) -> (a: Action)
        requires
            old(self).wf(),
        ensures
            final(self).wf(),
            final(self)@ == spec_step(old(self)@, now, event@).0,
            a == spec_step(old(self)@, now, event@).1,
    {
        proof {
            lemma_step_preserves_wf(old(self)@, now, event@);
        }
        let a = match self.phase {
            Phase::Idle => {
                self.phase = Phase::Starting;
                self.starts_issued = self.starts_issued + 1;
                Action::StartScan
            },
            Phase::Starting => match event {
                HostEvent::Started => {
                    self.phase = Phase::Subscribing;
                    self.started = true;
                    Action::Subscribe
                },
                HostEvent::StartFailed => {
                    self.phase = Phase::Failed(ScanError::ScanStartFailed);
                    Action::Finish
                },
                _ => Action::Pause,
            },
            Phase::Subscribing => match event {
                HostEvent::Subscribed => {
                    if now >= self.duration {
                        self.phase = Phase::Stopping(None);
                        self.stops_issued = self.stops_issued + 1;
                        Action::StopScan
                    } else {
                        self.phase = Phase::Scanning;
                        Action::AwaitEvent
                    }
                },
                HostEvent::SubscribeFailed => {
                    self.phase = Phase::Stopping(Some(ScanError::EventStreamUnavailable));
                    self.stops_issued = self.stops_issued + 1;
                    Action::StopScan
                },
                _ => Action::Pause,
            },
            Phase::Scanning => {
                if now >= self.duration {
                    self.phase = Phase::Stopping(None);
                    self.stops_issued = self.stops_issued + 1;
                    Action::StopScan
                } else {
                    match event {
                        HostEvent::Discovered(id) => {
                            self.phase = Phase::Resolving(*id);
                            Action::Resolve(*id)
                        },
                        HostEvent::StreamEnded => {
                            self.phase = Phase::Stopping(None);
                            self.stops_issued = self.stops_issued + 1;
                            Action::StopScan
                        },
                        HostEvent::NoEvent => Action::Pause,
                        _ => Action::AwaitEvent,
                    }
                }
            },
            Phase::Resolving(_) => match event {
                HostEvent::Resolved(Some(obs)) => {
                    self.registry.upsert(obs.duplicate());
                    if now >= self.duration {
                        self.phase = Phase::Stopping(None);
                        self.stops_issued = self.stops_issued + 1;
                        Action::StopScan
                    } else {
                        self.phase = Phase::Scanning;
                        Action::AwaitEvent
                    }
                },
                HostEvent::Resolved(None) => {
                    if now >= self.duration {
                        self.phase = Phase::Stopping(None);
                        self.stops_issued = self.stops_issued + 1;
                        Action::StopScan
                    } else {
                        self.phase = Phase::Scanning;
                        Action::AwaitEvent
                    }
                },
                HostEvent::ResolveFailed => {
                    self.phase = Phase::Stopping(Some(ScanError::PropertyResolutionFailed));
                    self.stops_issued = self.stops_issued + 1;
                    Action::StopScan
                },
                _ => Action::Pause,
            },
            Phase::Stopping(pending) => match event {
                HostEvent::Stopped => match pending {
                    None => {
                        self.phase = Phase::Completed;
                        Action::Finish
                    },
                    Some(e) => {
                        self.phase = Phase::Failed(e);
                        Action::Finish
                    },
                },
                HostEvent::StopFailed => match pending {
                    None => {
                        self.phase = Phase::Failed(ScanError::ScanStopFailed);
                        Action::Finish
                    },
                    Some(e) => {
                        self.phase = Phase::Failed(e);
                        Action::Finish
                    },
                },
                _ => Action::Pause,
            },
            Phase::Completed => Action::Finish,
            Phase::Failed(_) => Action::Finish,
        };
        proof {
            assert(self@ =~= spec_step(old(self)@, now, event@).0);
        }
        a
    }

    /// The session's current phase.
    pub fn phase(&self) -> (p: Phase)
        ensures
            p == self@.phase,
    {
        self.phase
    }

    /// The configured duration bound, in time units.
    pub fn duration(&self) -> (d: u64)
        ensures
            d == self@.duration,
    {
        self.duration
    }

    /// How often the controller has asked the host to start the scan.
    pub fn starts_issued(&self) -> (n: u64)
        ensures
            n as nat == self@.starts_issued,
    {
        self.starts_issued
    }

    /// How often the controller has asked the host to stop the scan.
    pub fn stops_issued(&self) -> (n: u64)
        ensures
            n as nat == self@.stops_issued,
    {
        self.stops_issued
    }

    /// The registry this session exclusively owns and drives.
    pub fn registry(&self) -> (r: &Registry)
        ensures
            r@ == self@.devices,
    {
        &self.registry
    }
}

/// The poll-once fallback's ingestion: one point-in-time snapshot of
/// resolved property sets folded into the contents, first to last; a
/// peripheral whose property set was absent is skipped.
pub open spec fn spec_poll(
    s: Seq<DeviceView>,
    polled: Seq<Option<ObservationView>>,
) -> Seq<DeviceView>
    decreases polled.len(),
{
    if polled.len() == 0 {
        s
    } else {
        let s2 = match polled[0] {
            Some(o) => spec_upsert(s, o),
            None => s,
        };
        spec_poll(s2, polled.drop_first())
    }
}

/// The views of one polled snapshot.
pub open spec fn polled_views(p: Seq<Option<Observation>>) -> Seq<Option<ObservationView>> {
    p.map_values(|o: Option<Observation>| (match o {
        Some(ob) => Some(ob@),
        None => None,
    }))
}

/// Appending one property set to a poll is one more fold step at its end.
proof fn lemma_spec_poll_snoc(
    s: Seq<DeviceView>,
    p: Seq<Option<ObservationView>>,
    x: Option<ObservationView>,
)
    ensures
        spec_poll(s, p.push(x)) == (match x {
            Some(o) => spec_upsert(spec_poll(s, p), o),
            None => spec_poll(s, p),
        }),
    decreases p.len(),
{
    let q = p.push(x);
    if p.len() == 0 {
        assert(q[0] == x);
        assert(q.drop_first() =~= Seq::<Option<ObservationView>>::empty());
        let s2 = match x {
            Some(o) => spec_upsert(s, o),
            None => s,
        };
        assert(spec_poll(s, q) == spec_poll(s2, q.drop_first()));
        assert(spec_poll(s2, q.drop_first()) == s2);
        assert(spec_poll(s, p) == s);
    } else {
        assert(q[0] == p[0]);
        assert(q.drop_first() =~= p.drop_first().push(x));
        let s2 = match p[0] {
            Some(o) => spec_upsert(s, o),
            None => s,
        };
        assert(spec_poll(s, q) == spec_poll(s2, q.drop_first()));
        lemma_spec_poll_snoc(s2, p.drop_first(), x);
        assert(spec_poll(s, p) == spec_poll(s2, p.drop_first()));
    }
}

/// Poll-once fallback mode: after one start-wait cycle the host hands over
/// a single snapshot of every currently-known peripheral's resolved
/// properties; fold it into a fresh registry. Simpler than the event loop,
/// but it only reflects devices still known at the final poll.
pub fn poll_once(polled: &Vec<Option<Observation>>) -> (r: Registry)
    ensures
        r.wf(),
        r@ == spec_poll(Seq::<DeviceView>::empty(), polled_views(polled@)),
{
    let mut reg = Registry::new();
    let n = polled.len();
    let mut i: usize = 0;
    while i < n
        invariant
            n == polled@.len(),
            i <= n,
            reg.wf(),
            reg@ == spec_poll(Seq::<DeviceView>::empty(), polled_views(polled@).take(i as int)),
        decreases n - i,
    {
        match &polled[i] {
            Some(o) => reg.upsert(o.duplicate()),
            None => {},
        }
        proof {
            let pv = polled_views(polled@);
            assert(pv.take(i as int).push(pv[i as int]) =~= pv.take(i as int + 1));
            lemma_spec_poll_snoc(Seq::<DeviceView>::empty(), pv.take(i as int), pv[i as int]);
        }
        i = i + 1;
    }
    proof {
        assert(polled_views(polled@).take(n as int) =~= polled_views(polled@));
    }
    reg
}

} // verus!
