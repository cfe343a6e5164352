use blescan::device::{Device, DeviceId, Observation};
use blescan::errors::ScanError;
use blescan::runner::{run, scan_session, SessionOutcome, Stimulus};
use blescan::selector::{select_adapter, AdapterId, EnumerationFault};
use blescan::session::{Action, Controller, HostEvent, Phase};

fn obs(addr: &str, name: Option<&str>) -> Observation {
    Observation { address: addr.to_string(), name: name.map(|s| s.to_string()) }
}

fn st(now: u64, event: HostEvent) -> Stimulus {
    Stimulus { now, event }
}

fn devices_of(out: &SessionOutcome) -> &Vec<Device> {
    match &out.outcome {
        Some(Ok(devices)) => devices,
        _ => panic!("expected a successful verdict"),
    }
}

fn error_of(out: &SessionOutcome) -> ScanError {
    match &out.outcome {
        Some(Err(e)) => *e,
        _ => panic!("expected a failed verdict"),
    }
}

#[test]
fn example_scenario_two_devices_in_order() {
    let stimuli = vec![
        st(0, HostEvent::NoEvent),
        st(0, HostEvent::Started),
        st(0, HostEvent::Subscribed),
        st(0, HostEvent::Discovered(DeviceId(1))),
        st(0, HostEvent::Resolved(Some(obs("A", Some("Phone"))))),
        st(1, HostEvent::Discovered(DeviceId(2))),
        st(1, HostEvent::Resolved(Some(obs("B", None)))),
        st(2, HostEvent::Discovered(DeviceId(1))),
        st(2, HostEvent::Resolved(Some(obs("A", Some("Phone-2"))))),
        st(5, HostEvent::NoEvent),
        st(5, HostEvent::Stopped),
    ];
    let out = run(5, &stimuli);
    let devices = devices_of(&out);
    assert_eq!(devices.len(), 2);
    assert_eq!(devices[0].name, "Phone-2");
    assert_eq!(devices[0].address, "A");
    assert_eq!(devices[1].name, "Unknown");
    assert_eq!(devices[1].address, "B");
    assert_eq!(out.starts_issued, 1);
    assert_eq!(out.stops_issued, 1);
}

#[test]
fn stop_issued_once_on_subscribe_failure() {
    let stimuli = vec![
        st(0, HostEvent::NoEvent),
        st(0, HostEvent::Started),
        st(0, HostEvent::SubscribeFailed),
        st(0, HostEvent::Stopped),
    ];
    let out = run(10, &stimuli);
    assert_eq!(error_of(&out), ScanError::EventStreamUnavailable);
    assert_eq!(out.stops_issued, 1);
}

#[test]
fn stop_issued_once_on_resolve_failure() {
    let stimuli = vec![
        st(0, HostEvent::NoEvent),
        st(0, HostEvent::Started),
        st(0, HostEvent::Subscribed),
        st(0, HostEvent::Discovered(DeviceId(7))),
        st(0, HostEvent::ResolveFailed),
        st(0, HostEvent::Stopped),
    ];
    let out = run(10, &stimuli);
    assert_eq!(error_of(&out), ScanError::PropertyResolutionFailed);
    assert_eq!(out.stops_issued, 1);
}

#[test]
fn stop_issued_once_on_timeout() {
    let stimuli = vec![
        st(0, HostEvent::NoEvent),
        st(0, HostEvent::Started),
        st(0, HostEvent::Subscribed),
        st(2, HostEvent::NoEvent),
        st(2, HostEvent::Stopped),
    ];
    let out = run(2, &stimuli);
    let devices = devices_of(&out);
    assert_eq!(devices.len(), 0);
    assert_eq!(out.stops_issued, 1);
}

#[test]
fn stop_issued_once_on_stream_end() {
    let stimuli = vec![
        st(0, HostEvent::NoEvent),
        st(0, HostEvent::Started),
        st(0, HostEvent::Subscribed),
        st(1, HostEvent::StreamEnded),
        st(1, HostEvent::Stopped),
    ];
    let out = run(10, &stimuli);
    let devices = devices_of(&out);
    assert_eq!(devices.len(), 0);
    assert_eq!(out.stops_issued, 1);
}

#[test]
fn stop_failure_surfaces_when_session_was_healthy() {
    let stimuli = vec![
        st(0, HostEvent::NoEvent),
        st(0, HostEvent::Started),
        st(0, HostEvent::Subscribed),
        st(3, HostEvent::NoEvent),
        st(3, HostEvent::StopFailed),
    ];
    let out = run(2, &stimuli);
    assert_eq!(error_of(&out), ScanError::ScanStopFailed);
    assert_eq!(out.stops_issued, 1);
}

#[test]
fn earlier_error_wins_over_stop_failure() {
    let stimuli = vec![
        st(0, HostEvent::NoEvent),
        st(0, HostEvent::Started),
        st(0, HostEvent::Subscribed),
        st(0, HostEvent::Discovered(DeviceId(7))),
        st(0, HostEvent::ResolveFailed),
        st(0, HostEvent::StopFailed),
    ];
    let out = run(10, &stimuli);
    assert_eq!(error_of(&out), ScanError::PropertyResolutionFailed);
    assert_eq!(out.stops_issued, 1);
}

#[test]
fn start_failure_issues_no_stop() {
    let stimuli = vec![st(0, HostEvent::NoEvent), st(0, HostEvent::StartFailed)];
    let out = run(10, &stimuli);
    assert_eq!(error_of(&out), ScanError::ScanStartFailed);
    assert_eq!(out.starts_issued, 1);
    assert_eq!(out.stops_issued, 0);
}

#[test]
fn time_bound_ends_session_despite_endless_producer() {
    let mut stimuli = vec![
        st(0, HostEvent::NoEvent),
        st(0, HostEvent::Started),
        st(0, HostEvent::Subscribed),
        st(1, HostEvent::OtherAdvert),
        st(2, HostEvent::Discovered(DeviceId(1))),
        st(2, HostEvent::Stopped),
    ];
    // The producer never closes: it keeps reporting events after the bound.
    for k in 0..50u64 {
        stimuli.push(st(3 + k, HostEvent::Discovered(DeviceId(k))));
    }
    let out = run(2, &stimuli);
    // The event delivered at the bound is not consumed; the session stops.
    let devices = devices_of(&out);
    assert_eq!(devices.len(), 0);
    assert_eq!(out.stops_issued, 1);
}

#[test]
fn zero_bound_never_awaits_an_event() {
    // With a bound of zero the session stops right after subscribing,
    // without waiting on the stream even once.
    let mut ctrl = Controller::new(0);
    ctrl.step(0, &HostEvent::NoEvent);
    ctrl.step(0, &HostEvent::Started);
    assert_eq!(ctrl.step(0, &HostEvent::Subscribed), Action::StopScan);
    assert_eq!(ctrl.phase(), Phase::Stopping(None));
    assert_eq!(ctrl.step(0, &HostEvent::Stopped), Action::Finish);
    assert_eq!(ctrl.phase(), Phase::Completed);
    assert_eq!(ctrl.stops_issued(), 1);
}

#[test]
fn resolution_finishing_past_bound_is_recorded_then_stopped() {
    // In-flight work completes: a resolution that lands after the bound
    // still reaches the registry, but no further event is awaited.
    let mut ctrl = Controller::new(2);
    ctrl.step(0, &HostEvent::NoEvent);
    ctrl.step(0, &HostEvent::Started);
    ctrl.step(0, &HostEvent::Subscribed);
    ctrl.step(1, &HostEvent::Discovered(DeviceId(1)));
    assert_eq!(
        ctrl.step(3, &HostEvent::Resolved(Some(obs("aa", Some("Late"))))),
        Action::StopScan
    );
    assert_eq!(ctrl.step(3, &HostEvent::Stopped), Action::Finish);
    assert_eq!(ctrl.phase(), Phase::Completed);
    let list = ctrl.registry().snapshot();
    assert_eq!(list.len(), 1);
    assert_eq!(list[0].name, "Late");
    assert_eq!(list[0].address, "aa");
    assert_eq!(ctrl.stops_issued(), 1);
}

#[test]
fn resolved_absent_property_set_is_skipped() {
    let stimuli = vec![
        st(0, HostEvent::NoEvent),
        st(0, HostEvent::Started),
        st(0, HostEvent::Subscribed),
        st(0, HostEvent::Discovered(DeviceId(1))),
        st(0, HostEvent::Resolved(None)),
        st(1, HostEvent::Discovered(DeviceId(2))),
        st(1, HostEvent::Resolved(Some(obs("B", Some("Kept"))))),
        st(9, HostEvent::NoEvent),
        st(9, HostEvent::Stopped),
    ];
    let out = run(9, &stimuli);
    let devices = devices_of(&out);
    assert_eq!(devices.len(), 1);
    assert_eq!(devices[0].name, "Kept");
    assert_eq!(devices[0].address, "B");
}

#[test]
fn no_adapter_fails_without_scan_start() {
    let stimuli = vec![
        st(0, HostEvent::NoEvent),
        st(0, HostEvent::Started),
        st(0, HostEvent::Subscribed),
        st(9, HostEvent::NoEvent),
        st(9, HostEvent::Stopped),
    ];
    let out = scan_session(Ok(Vec::new()), 9, &stimuli);
    assert_eq!(error_of(&out), ScanError::NoAdapterFound);
    assert_eq!(out.starts_issued, 0);
    assert_eq!(out.stops_issued, 0);
}

#[test]
fn enumeration_failure_is_surfaced() {
    let stimuli = vec![st(0, HostEvent::NoEvent)];
    let out = scan_session(Err(EnumerationFault), 9, &stimuli);
    assert_eq!(error_of(&out), ScanError::AdapterEnumerationFailed);
    assert_eq!(out.starts_issued, 0);
    assert_eq!(out.stops_issued, 0);
}

#[test]
fn select_adapter_picks_first_in_enumeration_order() {
    let listed = vec![AdapterId { index: 0 }, AdapterId { index: 1 }];
    assert_eq!(select_adapter(Ok(listed)), Ok(AdapterId { index: 0 }));
    assert_eq!(
        select_adapter(Ok(Vec::new())),
        Err::<AdapterId, ScanError>(ScanError::NoAdapterFound)
    );
    assert_eq!(
        select_adapter(Err(EnumerationFault)),
        Err::<AdapterId, ScanError>(ScanError::AdapterEnumerationFailed)
    );
}

#[test]
fn controller_walks_the_happy_phases() {
    let mut ctrl = Controller::new(10);
    assert_eq!(ctrl.phase(), Phase::Idle);
    assert_eq!(ctrl.step(0, &HostEvent::NoEvent), Action::StartScan);
    assert_eq!(ctrl.phase(), Phase::Starting);
    assert_eq!(ctrl.step(0, &HostEvent::Started), Action::Subscribe);
    assert_eq!(ctrl.phase(), Phase::Subscribing);
    assert_eq!(ctrl.step(0, &HostEvent::Subscribed), Action::AwaitEvent);
    assert_eq!(ctrl.phase(), Phase::Scanning);
    assert_eq!(
        ctrl.step(1, &HostEvent::Discovered(DeviceId(3))),
        Action::Resolve(DeviceId(3))
    );
    assert_eq!(ctrl.phase(), Phase::Resolving(DeviceId(3)));
    assert_eq!(
        ctrl.step(1, &HostEvent::Resolved(Some(obs("aa", Some("One"))))),
        Action::AwaitEvent
    );
    assert_eq!(ctrl.phase(), Phase::Scanning);
    assert_eq!(ctrl.step(10, &HostEvent::NoEvent), Action::StopScan);
    assert_eq!(ctrl.phase(), Phase::Stopping(None));
    assert_eq!(ctrl.step(10, &HostEvent::Stopped), Action::Finish);
    assert_eq!(ctrl.phase(), Phase::Completed);
    assert_eq!(ctrl.starts_issued(), 1);
    assert_eq!(ctrl.stops_issued(), 1);
    let list = ctrl.registry().snapshot();
    assert_eq!(list.len(), 1);
    assert_eq!(list[0].name, "One");
}

#[test]
fn other_event_kinds_are_ignored_while_scanning() {
    let mut ctrl = Controller::new(10);
    ctrl.step(0, &HostEvent::NoEvent);
    ctrl.step(0, &HostEvent::Started);
    ctrl.step(0, &HostEvent::Subscribed);
    assert_eq!(ctrl.step(1, &HostEvent::OtherAdvert), Action::AwaitEvent);
    assert_eq!(ctrl.phase(), Phase::Scanning);
    assert_eq!(ctrl.step(1, &HostEvent::NoEvent), Action::Pause);
    assert_eq!(ctrl.phase(), Phase::Scanning);
    assert_eq!(ctrl.registry().snapshot().len(), 0);
}

#[test]
fn unexpected_reports_leave_the_phase_alone() {
    let mut ctrl = Controller::new(10);
    ctrl.step(0, &HostEvent::NoEvent);
    assert_eq!(ctrl.phase(), Phase::Starting);
    assert_eq!(ctrl.step(0, &HostEvent::Discovered(DeviceId(1))), Action::Pause);
    assert_eq!(ctrl.phase(), Phase::Starting);
    ctrl.step(0, &HostEvent::Started);
    ctrl.step(0, &HostEvent::Subscribed);
    ctrl.step(10, &HostEvent::NoEvent);
    assert_eq!(ctrl.phase(), Phase::Stopping(None));
    assert_eq!(ctrl.step(10, &HostEvent::Discovered(DeviceId(1))), Action::Pause);
    assert_eq!(ctrl.phase(), Phase::Stopping(None));
    assert_eq!(ctrl.stops_issued(), 1);
}

#[test]
fn error_messages_are_the_documented_strings() {
    assert_eq!(
        ScanError::AdapterEnumerationFailed.message(),
        "Adapter enumeration failed"
    );
    assert_eq!(ScanError::NoAdapterFound.message(), "No Bluetooth adapters found");
    assert_eq!(ScanError::ScanStartFailed.message(), "Failed to start scan");
    assert_eq!(
        ScanError::EventStreamUnavailable.message(),
        "Discovery event stream unavailable"
    );
    assert_eq!(
        ScanError::PropertyResolutionFailed.message(),
        "Failed to resolve peripheral properties"
    );
    assert_eq!(ScanError::ScanStopFailed.message(), "Failed to stop scan");
}

#[test]
fn verdict_is_all_or_nothing() {
    // A failure after devices were discovered returns the error alone.
    let stimuli = vec![
        st(0, HostEvent::NoEvent),
        st(0, HostEvent::Started),
        st(0, HostEvent::Subscribed),
        st(0, HostEvent::Discovered(DeviceId(1))),
        st(0, HostEvent::Resolved(Some(obs("aa", Some("One"))))),
        st(1, HostEvent::Discovered(DeviceId(2))),
        st(1, HostEvent::ResolveFailed),
        st(1, HostEvent::Stopped),
    ];
    let out = run(10, &stimuli);
    assert_eq!(error_of(&out), ScanError::PropertyResolutionFailed);
    assert_eq!(out.stops_issued, 1);
}

#[test]
fn script_exhaustion_yields_no_verdict() {
    let stimuli = vec![st(0, HostEvent::NoEvent), st(0, HostEvent::Started)];
    let out = run(10, &stimuli);
    assert!(out.outcome.is_none());
    assert_eq!(out.starts_issued, 1);
    assert_eq!(out.stops_issued, 0);
}
