//! The status of the service: whether it is running or draining, how many businesses
//! are running, and when the service should stop once drained.

use vstd::prelude::*;

verus! {

/// Why the service is draining.
#[derive(Debug, Clone, Copy, PartialEq, Eq, Structural)]
pub enum DrainingReason {
    /// The server is being updated.
    Updating,
}

impl DrainingReason {
    /// The text that names the reason in messages.
    pub fn describe(&self) -> (s: String)
        ensures
            s@ == "server update"@,
    {
        match self {
            DrainingReason::Updating => String::from_str("server update"),
        }
    }

    /// The status code and the body that the reason is answered with.
    pub fn response(&self) -> (r: (u16, String))
        ensures
            r.0 == 503,
            r.1@ == "Server updating…"@,
    {
        match self {
            DrainingReason::Updating => (503, String::from_str("Server updating…")),
        }
    }
}

/// The status of the service.
#[derive(Debug, Clone, Copy, PartialEq, Eq, Structural)]
pub enum ServiceStatus {
    /// The service takes new businesses.
    Running,
    /// The service is draining and refuses new businesses.
    Draining(DrainingReason),
}

impl ServiceStatus {
    /// Starts draining for `reason`; a service that is already draining keeps its
    /// first reason.
    pub fn drain(&mut self, reason: DrainingReason)
        ensures
            *final(self) == match *old(self) {
                ServiceStatus::Running => ServiceStatus::Draining(reason),
                s => s,
            },
    {
        match self {
            ServiceStatus::Running => *self = ServiceStatus::Draining(reason),
            _ => {},
        }
    }

    /// The status code and the body that the status is answered with: an empty success
    /// while running, the draining reason's answer otherwise.
    pub fn response(&self) -> (r: (u16, String))
        ensures
            *self == ServiceStatus::Running ==> r.0 == 200 && r.1@ == Seq::<char>::empty(),
            *self == ServiceStatus::Draining(DrainingReason::Updating) ==> r.0 == 503
                && r.1@ == "Server updating…"@,
    {
        match self {
            ServiceStatus::Running => (200, String::new()),
            ServiceStatus::Draining(reason) => reason.response(),
        }
    }
}

/// The service: its status, the number of running businesses, and whether the stop of
/// the drained service has been requested.
pub struct Service {
    status: ServiceStatus,
    running: usize,
    stopping: bool,
}

/// The abstract state of the service.
pub struct ServiceView {
    pub status: ServiceStatus,
    pub running: nat,
    pub stopping: bool,
}

/// The state after a business ends, and whether the stop of the service is to be
/// requested now: the service stops once it is draining and only one business remains,
/// and the stop is requested only the first time.
pub open spec fn spec_release(s: ServiceView) -> (ServiceView, bool) {
    let running = (s.running - 1) as nat;
    let drained = s.status is Draining && running == 1;
    (ServiceView { status: s.status, running, stopping: s.stopping || drained }, drained && !s.stopping)
}

impl View for Service {
    type V = ServiceView;

    closed spec fn view(&self) -> ServiceView {
        ServiceView { status: self.status, running: self.running as nat, stopping: self.stopping }
    }
}

impl Service {
    /// A running service without businesses.
    pub fn new() -> (s: Service)
        ensures
            s@ == (ServiceView { status: ServiceStatus::Running, running: 0, stopping: false }),
    {
        Service { status: ServiceStatus::Running, running: 0, stopping: false }
    }

    /// The current status.
    pub fn status(&self) -> (s: ServiceStatus)
        ensures
            s == self@.status,
    {
        self.status
    }

    /// The number of running businesses.
    pub fn running(&self) -> (n: usize)
        ensures
            n == self@.running,
    {
        self.running
    }
}

/// Drains the service for `reason`: a running service starts draining, a draining one
/// keeps its first reason. The businesses and the stop request are unchanged.
pub fn drain(service: &mut Service, reason: DrainingReason)
    ensures
        final(service)@ == (ServiceView {
            status: match old(service)@.status {
                ServiceStatus::Running => ServiceStatus::Draining(reason),
                s => s,
            },
            ..old(service)@
        }),
        final(service)@ == spec_step(old(service)@, ServiceEvent::Drain(reason)).0,
{
    service.status.drain(reason);
}

/// Checks whether the service takes new businesses: `Ok` while running, otherwise the
/// status code and body that the current status is answered with.
pub fn check(service: &Service) -> (r: Result<(), (u16, String)>)
    ensures
        r is Ok <==> service@.status == ServiceStatus::Running,
        r matches Err(e) ==> e.0 == 503 && e.1@ == "Server updating…"@,
{
    match service.status {
        ServiceStatus::Running => Ok(()),
        status => Err(status.response()),
    }
}

/// Starts a business and returns the guard that ends it.
pub fn run(service: &mut Service) -> (g: Guard)
    requires
        old(service)@.running < usize::MAX,
    ensures
        final(service)@ == (ServiceView { running: old(service)@.running + 1, ..old(service)@ }),
        final(service)@ == spec_step(old(service)@, ServiceEvent::Start).0,
{
    Guard::new(service)
}

/// The token of one running business.
#[derive(Debug)]
pub struct Guard {
    started: (),
}

impl Guard {
    fn new(service: &mut Service) -> (g: Guard)
        requires
            old(service)@.running < usize::MAX,
        ensures
            final(service)@ == (ServiceView { running: old(service)@.running + 1, ..old(service)@ }),
    {
        service.running = service.running + 1;
        Guard { started: () }
    }

    /// Ends the business. Returns whether the stop of the service is to be requested
    /// now: the service is draining, the only business left is the one that drains it,
    /// and no stop has been requested before.
    pub fn release(self, service: &mut Service) -> (stop: bool)
        requires
            old(service)@.running >= 1,
        ensures
            (final(service)@, stop) == spec_release(old(service)@),
            (final(service)@, stop) == spec_step(old(service)@, ServiceEvent::End),
            final(service)@.running == old(service)@.running - 1,
            final(service)@.status == old(service)@.status,
            stop <==> old(service)@.status is Draining && final(service)@.running == 1 && !old(service)@.stopping,
            final(service)@.running != 1 ==> !stop && final(service)@.stopping == old(service)@.stopping,
    {
        service.running = service.running - 1;
        let is_drained = service.running == 1;
        let draining = match service.status {
            ServiceStatus::Draining(_) => true,
            ServiceStatus::Running => false,
        };
        if draining && is_drained {
            let was_stopping = service.stopping;
            service.stopping = true;
            !was_stopping
        } else {
            false
        }
    }
}

/// The stop of the service is requested at most once: after a release that requests
/// it, no later release requests it again.
pub proof fn lemma_stop_requested_once(s: ServiceView, t: ServiceView)
    requires
        s.running >= 1,
        spec_release(s).1,
        t.stopping,
    ensures
        !spec_release(t).1,
        spec_release(s).0.stopping,
{
}

/// Ending a business requests the stop exactly when the service is draining, exactly
/// one business remains running after it, and the stop was not requested before; with
/// any other number of businesses left it requests nothing and leaves the stop request
/// as it was. One business fewer runs afterwards, and the status is unchanged.
pub proof fn lemma_release_stops_with_one_left(s: ServiceView)
    requires
        s.running >= 1,
    ensures
        spec_release(s).0.running == s.running - 1,
        spec_release(s).0.status == s.status,
        spec_release(s).1 <==> s.status is Draining && s.running - 1 == 1 && !s.stopping,
        s.running - 1 != 1 ==> !spec_release(s).1 && spec_release(s).0.stopping == s.stopping,
        s.running - 1 == 1 && s.status is Draining ==> spec_release(s).0.stopping,
{
}

/// Draining is final: once the service drains, a further drain keeps the first reason,
/// and starting or ending businesses never makes it run again.
pub proof fn lemma_draining_is_final(s: ServiceView, reason: DrainingReason)
    requires
        s.status is Draining,
        s.running >= 1,
    ensures
        spec_release(s).0.status == s.status,
        (match s.status {
            ServiceStatus::Running => ServiceStatus::Draining(reason),
            st => st,
        }) == s.status,
{
}

/// What happens to the service: a business starts, the service is drained for a
/// reason, or a business ends.
pub enum ServiceEvent {
    /// A business starts (`run`).
    Start,
    /// The service is drained for this reason (`drain`).
    Drain(DrainingReason),
    /// A business ends (`Guard::release`).
    End,
}

/// The state after one event, and whether the event requests the stop of the service.
pub open spec fn spec_step(s: ServiceView, e: ServiceEvent) -> (ServiceView, bool) {
    match e {
        ServiceEvent::Start => (ServiceView { running: s.running + 1, ..s }, false),
        ServiceEvent::Drain(reason) => (ServiceView {
            status: match s.status {
                ServiceStatus::Running => ServiceStatus::Draining(reason),
                st => st,
            },
            ..s
        }, false),
        ServiceEvent::End => spec_release(s),
    }
}

/// The state after a sequence of events, and how many of them request the stop.
pub open spec fn spec_events(s: ServiceView, events: Seq<ServiceEvent>) -> (ServiceView, nat)
    decreases events.len(),
{
    if events.len() == 0 {
        (s, 0)
    } else {
        let (t, stop) = spec_step(s, events[0]);
        let (u, n) = spec_events(t, events.drop_first());
        (u, if stop { n + 1 } else { n })
    }
}

/// Over any sequence of starts, drains and ends, the stop of the service is requested
/// at most once, and not at all when it was requested before; once requested it stays
/// requested, and it is requested only of a draining service, so a running service
/// that is never drained never requests it.
pub proof fn lemma_stop_requested_at_most_once(s: ServiceView, events: Seq<ServiceEvent>)
    ensures
        ({
            let (u, n) = spec_events(s, events);
            &&& n <= 1
            &&& s.stopping ==> n == 0
            &&& u.stopping == (s.stopping || n == 1)
            &&& s.status is Draining ==> u.status == s.status
            &&& n == 1 ==> u.status is Draining
            &&& s.status is Running && (forall|i: int| 0 <= i < events.len() ==> !(#[trigger] events[i] is Drain))
                ==> n == 0 && u.status is Running
        }),
    decreases events.len(),
{
    if events.len() > 0 {
        let (t, stop) = spec_step(s, events[0]);
        let rest = events.drop_first();
        lemma_stop_requested_at_most_once(t, rest);
        if s.status is Running && (forall|i: int| 0 <= i < events.len() ==> !(#[trigger] events[i] is Drain)) {
            assert(!(events[0] is Drain));
            assert forall|i: int| 0 <= i < rest.len() implies !(#[trigger] rest[i] is Drain) by {
                assert(rest[i] == events[i + 1]);
            }
        }
    }
}

} // verus!
