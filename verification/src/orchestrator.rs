//! The monitors of a device and what coordinates them: discovery and
//! hot-plug, the commit of a frame for all drawn monitors at once, page
//! flips, and the pulse of the fastest refresh-rate group.

use crate::allocation::{
    allocation_of, lemma_allocation_free, reported, DeviceSnapshot, ResourceUsage,
};
use crate::atomic::{assign_all, no_entries, request_entries, Assignment};
use crate::groups::{
    lemma_mark_all, lemma_mark_wf, lemma_reset_wf, rebuilt, GroupsView, RefreshGroups,
};
use crate::mode::Mode;
use crate::monitor::{
    answers_plan, assignments_after, initial_view, preferred_mode_of, reports, setup_fails_with,
    view_after, FrameOutcome, Monitor, MonitorResourceAllocation, MonitorSetupError, MonitorView,
    SetupOutcome,
};
use crate::poll::{poll_descriptors, PollSet};
use drm::control::atomic::AtomicModeReq;
use std::collections::HashMap;
use std::collections::HashSet;
use vstd::prelude::*;
use vstd::string::*;

verus! {

broadcast use vstd::std_specs::hash::group_hash_axioms;

/// Errors of the orchestrator.
#[derive(Debug, Clone, PartialEq, Eq)]
pub enum EasyDRMError {
    /// A device query failed; the text is that of the operating system.
    IOError(String),
    MonitorSetup(MonitorSetupError),
}

impl EasyDRMError {
    /// The text of the error.
    pub open spec fn spec_message(&self) -> Seq<char> {
        match self {
            EasyDRMError::IOError(detail) => "IO Error: "@ + detail@,
            EasyDRMError::MonitorSetup(inner) => "Monitor setup error: "@ + inner.spec_message(),
        }
    }

    /// Renders the error as text.
    pub fn message(&self) -> (text: String)
        ensures
            text@ == self.spec_message(),
    {
        match self {
            EasyDRMError::IOError(detail) => String::from_str("IO Error: ").concat(
                detail.as_str(),
            ),
            EasyDRMError::MonitorSetup(inner) => {
                let detail = inner.message();
                String::from_str("Monitor setup error: ").concat(detail.as_str())
            },
        }
    }
}

/// An event that the device reports.
#[derive(Debug, Clone, Copy, PartialEq, Eq)]
pub enum Event {
    /// The frame queued for this CRTC is now the one scanned out.
    PageFlip { crtc: u32 },
    /// Anything else.
    Other,
}

/// Whether a page flip of `crtc` is among the events.
pub open spec fn flipped(events: Seq<Event>, crtc: u32) -> bool {
    exists|k: int| 0 <= k < events.len() && #[trigger] events[k] == (Event::PageFlip { crtc })
}

/// No two of the monitors share a connector, a CRTC or a primary plane, nor
/// a cursor plane if both have one.
pub open spec fn disjoint(views: Seq<MonitorView>) -> bool {
    forall|i: int, j: int|
        0 <= i < j < views.len() ==> {
            &&& (#[trigger] views[i]).connector_id != (#[trigger] views[j]).connector_id
            &&& views[i].crtc.handle != views[j].crtc.handle
            &&& views[i].primary_plane != views[j].primary_plane
            &&& views[i].cursor_plane is Some && views[j].cursor_plane is Some
                ==> views[i].cursor_plane != views[j].cursor_plane
        }
}

/// Each monitor's connector with the refresh rate of its active mode.
pub open spec fn members_of(views: Seq<MonitorView>) -> Seq<(u32, u32)> {
    Seq::new(views.len(), |i: int| (views[i].connector_id, views[i].active_mode().vrefresh))
}

/// The state of each of the monitors.
pub open spec fn views_of<T>(monitors: Seq<Monitor<T>>) -> Seq<MonitorView> {
    Seq::new(monitors.len(), |i: int| monitors[i]@)
}

/// The monitors of a device and the refresh-rate groups that they form.
/// `T` is the caller's own per-monitor context.
pub struct EasyDRM<T> {
    monitors: Vec<Monitor<T>>,
    groups: RefreshGroups,
}

impl<T> EasyDRM<T> {
    /// The monitors, in the order in which they were set up.
    pub closed spec fn spec_monitors(&self) -> Seq<Monitor<T>> {
        self.monitors@
    }

    /// The state of each monitor.
    pub open spec fn views(&self) -> Seq<MonitorView> {
        views_of(self.spec_monitors())
    }

    /// The refresh-rate groups and the state of the current cycle.
    pub closed spec fn groups(&self) -> GroupsView {
        self.groups@
    }

    /// What holds at every moment: the monitors share no resources, and the
    /// groups are as they have to be.
    pub open spec fn wf(&self) -> bool {
        &&& disjoint(self.views())
        &&& self.groups().wf()
    }

    /// An orchestrator without monitors. Monitors come with discovery.
    pub fn init() -> (made: EasyDRM<T>)
        ensures
            made.spec_monitors().len() == 0,
            made.groups() == rebuilt(Seq::empty()),
            made.wf(),
    {
        EasyDRM { monitors: Vec::new(), groups: RefreshGroups::new() }
    }

    /// The monitors.
    pub fn monitors(&self) -> (all: &Vec<Monitor<T>>)
        ensures
            all@ == self.spec_monitors(),
    {
        &self.monitors
    }

    /// One of the monitors, by its position, to draw on or to change its
    /// mode or context. The other monitors and the groups stay as they are.
    pub fn monitors_mut(&mut self, index: usize) -> (monitor: &mut Monitor<T>)
        requires
            index < old(self).spec_monitors().len(),
        ensures
            *monitor == old(self).spec_monitors()[index as int],
            final(self).spec_monitors() == old(self).spec_monitors().update(
                index as int,
                *final(monitor),
            ),
            final(self).groups() == old(self).groups(),
    {
        &mut self.monitors[index]
    }

    /// Where the monitor on the connector stands among the monitors.
    pub fn position(&self, connector_id: u32) -> (at: Option<usize>)
        ensures
            at matches Some(i) ==> i < self.views().len() && self.views()[i as int].connector_id
                == connector_id,
            at is None ==> forall|i: int|
                0 <= i < self.views().len() ==> (#[trigger] self.views()[i]).connector_id
                    != connector_id,
            at matches Some(i) ==> forall|j: int|
                0 <= j < i ==> (#[trigger] self.views()[j]).connector_id != connector_id,
    {
        let mut i: usize = 0;
        while i < self.monitors.len()
            invariant
                i <= self.monitors@.len(),
                forall|j: int| 0 <= j < i ==> (#[trigger] self.views()[j]).connector_id != connector_id,
            decreases self.monitors@.len() - i,
        {
            if self.monitors[i].connector_id() == connector_id {
                return Some(i);
            }
            i += 1;
        }
        None
    }

    /// The monitor on the connector, if there is one.
    pub fn get_monitor(&self, connector_id: u32) -> (found: Option<&Monitor<T>>)
        ensures
            found matches Some(monitor) ==> monitor@.connector_id == connector_id
                && self.spec_monitors().contains(*monitor),
            found is None ==> forall|i: int|
                0 <= i < self.views().len() ==> (#[trigger] self.views()[i]).connector_id
                    != connector_id,
    {
        match self.position(connector_id) {
            Some(i) => {
                Some(&self.monitors[i])
            },
            None => None,
        }
    }

    /// The monitor on the connector, if there is one, to draw on or to
    /// change its mode or context. The other monitors and the groups stay
    /// as they are.
    pub fn get_monitor_mut(&mut self, connector_id: u32) -> (found: Option<&mut Monitor<T>>)
        ensures
            found is None ==> final(self).spec_monitors() == old(self).spec_monitors()
                && forall|i: int|
                0 <= i < old(self).views().len() ==> (#[trigger] old(self).views()[i]).connector_id
                    != connector_id,
            found matches Some(monitor) ==> monitor@.connector_id == connector_id && exists|
                i: int,
            |
                0 <= i < old(self).spec_monitors().len() && *monitor == old(self).spec_monitors()[i]
                    && final(self).spec_monitors() == old(self).spec_monitors().update(
                    i,
                    *final(monitor),
                ),
            final(self).groups() == old(self).groups(),
    {
        match self.position(connector_id) {
            Some(i) => {
                Some(&mut self.monitors[i])
            },
            None => None,
        }
    }

    /// The descriptors that a wait for events watches: the device and the
    /// uevent socket, if there is one.
    pub fn poll_events(&self, drm_fd: i32, uevent_fd: Option<i32>) -> (set: PollSet)
        ensures
            set.descriptors@ == poll_descriptors(drm_fd, Seq::empty(), uevent_fd),
            set.uevent_fd == uevent_fd,
    {
        let none: Vec<i32> = Vec::new();
        self.poll_events_ex(drm_fd, &none, uevent_fd)
    }

    /// The descriptors that a wait for events watches: the device, the
    /// caller's own descriptors, and the uevent socket, if there is one.
    pub fn poll_events_ex(&self, drm_fd: i32, extra_fds: &Vec<i32>, uevent_fd: Option<i32>) -> (set:
        PollSet)
        ensures
            set.descriptors@ == poll_descriptors(drm_fd, extra_fds@, uevent_fd),
            set.uevent_fd == uevent_fd,
    {
        PollSet::new(drm_fd, extra_fds, uevent_fd)
    }

    /// The number of monitors.
    pub fn monitor_count(&self) -> (count: usize)
        ensures
            count == self.spec_monitors().len(),
    {
        self.monitors.len()
    }

    /// Whether there is a monitor at all.
    pub fn has_monitors(&self) -> (any: bool)
        ensures
            any == (self.spec_monitors().len() > 0),
    {
        self.monitors.len() > 0
    }

    /// Whether some monitor is ready to be rendered to.
    pub fn any_can_render(&self) -> (any: bool)
        ensures
            any == exists|i: int| 0 <= i < self.views().len() && (#[trigger] self.views()[i]).can_render,
    {
        let mut i: usize = 0;
        while i < self.monitors.len()
            invariant
                i <= self.monitors@.len(),
                forall|j: int| 0 <= j < i ==> !(#[trigger] self.views()[j]).can_render,
            decreases self.monitors@.len() - i,
        {
            if self.monitors[i].can_render() {
                assert(self.views()[i as int].can_render);
                return true;
            }
            i += 1;
        }
        false
    }

    /// The connectors of each refresh rate in use.
    pub fn refresh_rate_groups(&self) -> (groups: &HashMap<u32, Vec<u32>>)
        ensures
            groups@.map_values(|members: Vec<u32>| members@) == self.groups().groups,
    {
        self.groups.refresh_rate_groups()
    }

    /// The highest refresh rate in use.
    pub fn fastest_group_refresh(&self) -> (fastest: Option<u32>)
        ensures
            fastest == self.groups().fastest,
    {
        self.groups.fastest_group_refresh()
    }

    /// Says, once per cycle, that every monitor of the fastest group has
    /// been part of a committed frame, and begins the next cycle.
    pub fn should_update(&mut self) -> (due: bool)
        ensures
            (final(self).groups(), due) == old(self).groups().poll(),
            final(self).spec_monitors() == old(self).spec_monitors(),
            old(self).wf() ==> final(self).wf(),
    {
        proof {
            if self.wf() && self.groups().flag {
                lemma_reset_wf(GroupsView { flag: false, ..self.groups() });
            }
        }
        self.groups.should_update()
    }

    /// Notes that the connector was part of a committed frame.
    pub fn mark_fast_group_commit(&mut self, connector_id: u32)
        ensures
            final(self).groups() == old(self).groups().mark(connector_id),
            final(self).spec_monitors() == old(self).spec_monitors(),
            old(self).wf() ==> final(self).wf(),
    {
        proof {
            if self.wf() {
                lemma_mark_wf(self.groups(), connector_id);
            }
        }
        self.groups.mark_fast_group_commit(connector_id);
    }

    /// Begins a new cycle of the fastest group.
    pub fn reset_fastest_group_pending(&mut self)
        ensures
            final(self).groups() == old(self).groups().reset(),
            final(self).spec_monitors() == old(self).spec_monitors(),
            old(self).wf() ==> final(self).wf(),
    {
        proof {
            if self.wf() {
                lemma_reset_wf(self.groups());
            }
        }
        self.groups.reset_fastest_group_pending();
    }

    /// Groups the monitors anew by the refresh rate of their active mode
    /// and begins a new cycle.
    pub fn update_refresh_rate_groups(&mut self)
        ensures
            final(self).groups() == rebuilt(members_of(old(self).views())),
            final(self).groups().wf(),
            final(self).spec_monitors() == old(self).spec_monitors(),
            old(self).wf() ==> final(self).wf(),
    {
        let mut members: Vec<(u32, u32)> = Vec::new();
        let mut i: usize = 0;
        while i < self.monitors.len()
            invariant
                i <= self.monitors@.len(),
                members@ == members_of(self.views()).take(i as int),
            decreases self.monitors@.len() - i,
        {
            let monitor = &self.monitors[i];
            members.push((monitor.connector_id(), monitor.active_mode().vrefresh()));
            i += 1;
        }
        proof {
            assert(members_of(self.views()).take(i as int) =~= members_of(self.views()));
        }
        self.groups.rebuild(&members);
    }

    /// The CRTCs and planes that the monitors hold.
    pub fn current_resource_usage(&self) -> (usage: ResourceUsage)
        ensures
            forall|h: u32|
                usage.crtcs@.contains(h) <==> exists|i: int|
                    0 <= i < self.views().len() && (#[trigger] self.views()[i]).crtc.handle == h,
            forall|h: u32|
                usage.primary_planes@.contains(h) <==> exists|i: int|
                    0 <= i < self.views().len() && (#[trigger] self.views()[i]).primary_plane == h,
            forall|h: u32|
                usage.cursor_planes@.contains(h) <==> exists|i: int|
                    0 <= i < self.views().len() && (#[trigger] self.views()[i]).cursor_plane
                        == Some(h),
    {
        let mut usage = ResourceUsage {
            crtcs: HashSet::new(),
            primary_planes: HashSet::new(),
            cursor_planes: HashSet::new(),
        };
        let mut n: usize = 0;
        while n < self.monitors.len()
            invariant
                n <= self.monitors@.len(),
                forall|h: u32|
                    usage.crtcs@.contains(h) <==> exists|i: int|
                        0 <= i < n && (#[trigger] self.views()[i]).crtc.handle == h,
                forall|h: u32|
                    usage.primary_planes@.contains(h) <==> exists|i: int|
                        0 <= i < n && (#[trigger] self.views()[i]).primary_plane == h,
                forall|h: u32|
                    usage.cursor_planes@.contains(h) <==> exists|i: int|
                        0 <= i < n && (#[trigger] self.views()[i]).cursor_plane == Some(h),
            decreases self.monitors@.len() - n,
        {
            let monitor = &self.monitors[n];
            let ghost view = self.views()[n as int];
            usage.crtcs.insert(monitor.crtc().handle);
            usage.primary_planes.insert(monitor.primary_plane());
            if let Some(cursor) = monitor.cursor_plane() {
                usage.cursor_planes.insert(cursor);
            }
            n += 1;
        }
        usage
    }

    /// Takes note of the events that the device reported: every monitor
    /// whose CRTC completed a page flip can be rendered to again.
    pub fn handle_drm_events(&mut self, events: &Vec<Event>)
        ensures
            final(self).views().len() == old(self).views().len(),
            forall|i: int|
                0 <= i < old(self).views().len() ==> #[trigger] final(self).views()[i]
                    == after_events(old(self).views()[i], events@),
            same_contexts(old(self).spec_monitors(), final(self).spec_monitors()),
            final(self).groups() == old(self).groups(),
            old(self).wf() ==> final(self).wf(),
    {
        let mut k: usize = 0;
        while k < events.len()
            invariant
                k <= events@.len(),
                self.groups == old(self).groups,
                same_contexts(old(self).monitors@, self.monitors@),
                forall|i: int|
                    0 <= i < self.monitors@.len() ==> (#[trigger] self.monitors@[i])@
                        == after_events(old(self).monitors@[i]@, events@.take(k as int)),
            decreases events@.len() - k,
        {
            proof {
                lemma_flipped_step(events@, k as int);
            }
            match events[k] {
                Event::PageFlip { crtc } => {
                    let mut n: usize = 0;
                    let ghost start = self.monitors@;
                    while n < self.monitors.len()
                        invariant
                            n <= self.monitors@.len(),
                            self.groups == old(self).groups,
                            same_contexts(start, self.monitors@),
                            forall|i: int|
                                0 <= i < n ==> (#[trigger] self.monitors@[i])@ == (MonitorView {
                                    can_render: start[i]@.can_render || start[i]@.crtc.handle
                                        == crtc,
                                    ..start[i]@
                                }),
                            forall|i: int|
                                n <= i < start.len() ==> #[trigger] self.monitors@[i] == start[i],
                        decreases self.monitors@.len() - n,
                    {
                        self.monitors[n].page_flipped(crtc);
                        n += 1;
                    }
                },
                Event::Other => {},
            }
            k += 1;
        }
        proof {
            assert(events@.take(k as int) =~= events@);
            assert forall|i: int| 0 <= i < old(self).views().len() implies #[trigger] final(self).views()[i] == after_events(old(self).views()[i], events@) by {
            }
            if old(self).wf() {
                lemma_disjoint_kept(old(self).views(), final(self).views());
            }
        }
    }
}

/// The state of a monitor after the device reported the events.
pub open spec fn after_events(v: MonitorView, events: Seq<Event>) -> MonitorView {
    MonitorView { can_render: v.can_render || flipped(events, v.crtc.handle), ..v }
}

/// The monitors are as many as before and carry the same contexts of the
/// caller.
pub open spec fn same_contexts<T>(before: Seq<Monitor<T>>, after: Seq<Monitor<T>>) -> bool {
    &&& after.len() == before.len()
    &&& forall|i: int|
        0 <= i < before.len() ==> (#[trigger] after[i]).spec_context() == before[i].spec_context()
}

/// The monitors are as many as before, and each is on the connector and
/// holds the resources that it held.
pub open spec fn same_resources(before: Seq<MonitorView>, after: Seq<MonitorView>) -> bool {
    &&& after.len() == before.len()
    &&& forall|i: int|
        0 <= i < before.len() ==> {
            &&& (#[trigger] after[i]).connector_id == before[i].connector_id
            &&& after[i].crtc == before[i].crtc
            &&& after[i].primary_plane == before[i].primary_plane
            &&& after[i].cursor_plane == before[i].cursor_plane
        }
}

/// Monitors that were apart and kept their resources are apart.
pub proof fn lemma_disjoint_kept(before: Seq<MonitorView>, after: Seq<MonitorView>)
    requires
        disjoint(before),
        same_resources(before, after),
    ensures
        disjoint(after),
{
    assert forall|i: int, j: int| 0 <= i < j < after.len() implies {
        &&& (#[trigger] after[i]).connector_id != (#[trigger] after[j]).connector_id
        &&& after[i].crtc.handle != after[j].crtc.handle
        &&& after[i].primary_plane != after[j].primary_plane
        &&& after[i].cursor_plane is Some && after[j].cursor_plane is Some ==> after[i].cursor_plane
            != after[j].cursor_plane
    } by {
    }
}

/// A page flip is among the first `k + 1` events if it is among the first
/// `k` or is the one after them.
proof fn lemma_flipped_step(events: Seq<Event>, k: int)
    requires
        0 <= k < events.len(),
    ensures
        forall|crtc: u32|
            #[trigger] flipped(events.take(k + 1), crtc) == (flipped(events.take(k), crtc)
                || events[k] == (Event::PageFlip { crtc })),
{
    let seen = events.take(k);
    let more = events.take(k + 1);
    assert forall|crtc: u32| #[trigger]
        flipped(more, crtc) == (flipped(seen, crtc) || events[k] == (Event::PageFlip {
            crtc,
        })) by {
        if events[k] == (Event::PageFlip { crtc }) {
            assert(more[k] == (Event::PageFlip { crtc }));
        }
    }
}

impl EasyDRM<()> {
    /// An orchestrator whose monitors carry no context of the caller.
    pub fn init_empty() -> (made: EasyDRM<()>)
        ensures
            made.spec_monitors().len() == 0,
            made.groups() == rebuilt(Seq::empty()),
            made.wf(),
    {
        EasyDRM::init()
    }
}

/// How an atomic request is to be submitted.
#[derive(Debug, Clone, Copy, PartialEq, Eq, Structural)]
pub struct CommitFlags {
    /// A page-flip event is to be sent when the changes are applied.
    pub page_flip_event: bool,
    /// The changes may set a mode.
    pub allow_modeset: bool,
}

/// The frame of all drawn monitors, ready to be submitted in one request.
#[derive(Debug)]
pub struct CommitBatch {
    request: AtomicModeReq,
    committed: Vec<u32>,
}

impl CommitBatch {
    /// The request as a specification value.
    pub closed spec fn spec_request(&self) -> AtomicModeReq {
        self.request
    }

    /// The connectors whose frame is in the request.
    pub closed spec fn spec_committed(&self) -> Seq<u32> {
        self.committed@
    }

    /// The request to submit.
    pub fn request(&self) -> (req: &AtomicModeReq)
        ensures
            *req == self.spec_request(),
    {
        &self.request
    }

    /// The connectors whose frame is in the request, in the order of the
    /// monitors.
    pub fn committed(&self) -> (list: &Vec<u32>)
        ensures
            list@ == self.spec_committed(),
    {
        &self.committed
    }

    /// The flags to submit the request with: a page-flip event is asked
    /// for, and a mode set is allowed.
    pub fn flags(&self) -> (flags: CommitFlags)
        ensures
            flags.page_flip_event,
            flags.allow_modeset,
    {
        CommitFlags { page_flip_event: true, allow_modeset: true }
    }

    /// Takes the batch apart into the request and the connectors.
    pub fn into_parts(self) -> (parts: (AtomicModeReq, Vec<u32>))
        ensures
            parts.0 == self.spec_request(),
            parts.1@ == self.spec_committed(),
    {
        (self.request, self.committed)
    }
}

/// Whether `outcomes` holds, for the drawn monitors from position `at` on
/// and in their order, an outcome that answers the monitor's plan, the
/// first of them at position `used`; after an outcome that is a failure no
/// more are needed.
pub open spec fn answers_batch(
    views: Seq<MonitorView>,
    outcomes: Seq<FrameOutcome>,
    at: int,
    used: int,
) -> bool
    decreases views.len() - at,
{
    if at < 0 || at >= views.len() {
        true
    } else if !views[at].was_drawn {
        answers_batch(views, outcomes, at + 1, used)
    } else {
        &&& 0 <= used < outcomes.len()
        &&& answers_plan(views[at], outcomes[used])
        &&& outcomes[used] is Ready ==> answers_batch(views, outcomes, at + 1, used + 1)
    }
}

/// What preparing a batch amounts to.
pub struct BatchView {
    /// The monitors afterwards.
    pub views: Seq<MonitorView>,
    /// What was assigned in the request, first to last.
    pub assignments: Seq<Assignment>,
    /// The connectors whose frame went into the request.
    pub committed: Seq<u32>,
    /// The position of the outcome that ended the batch as a failure.
    pub failed: Option<int>,
}

/// The batch of the monitors from position `at` on, with the outcomes from
/// position `used` on. Each drawn monitor takes the next outcome. When the
/// device work succeeded, its frame goes into the request and its drawn
/// flag is cleared; when it failed, the batch ends there, and that monitor
/// and all later ones keep their drawn flag.
pub open spec fn batch(views: Seq<MonitorView>, outcomes: Seq<FrameOutcome>, at: int, used: int)
    -> BatchView
    decreases views.len() - at,
{
    if at < 0 || at >= views.len() {
        BatchView { views, assignments: Seq::empty(), committed: Seq::empty(), failed: None }
    } else if !views[at].was_drawn {
        batch(views, outcomes, at + 1, used)
    } else if outcomes[used] is Ready {
        let after = MonitorView { was_drawn: false, ..view_after(views[at], outcomes[used]) };
        let rest = batch(views.update(at, after), outcomes, at + 1, used + 1);
        BatchView {
            views: rest.views,
            assignments: assignments_after(views[at], outcomes[used]) + rest.assignments,
            committed: seq![views[at].connector_id] + rest.committed,
            failed: rest.failed,
        }
    } else {
        BatchView {
            views: views.update(at, view_after(views[at], outcomes[used])),
            assignments: assignments_after(views[at], outcomes[used]),
            committed: Seq::empty(),
            failed: Some(used),
        }
    }
}

/// Whether the outcomes answer the monitors from `at` on depends on those
/// monitors only.
pub proof fn lemma_answers_batch_local(
    views: Seq<MonitorView>,
    others: Seq<MonitorView>,
    outcomes: Seq<FrameOutcome>,
    at: int,
    used: int,
)
    requires
        views.len() == others.len(),
        forall|i: int| at <= i < views.len() ==> views[i] == others[i],
    ensures
        answers_batch(views, outcomes, at, used) == answers_batch(others, outcomes, at, used),
    decreases views.len() - at,
{
    if 0 <= at < views.len() {
        lemma_answers_batch_local(views, others, outcomes, at + 1, used);
        lemma_answers_batch_local(views, others, outcomes, at + 1, used + 1);
    }
}

/// A batch changes of a monitor neither its connector nor its resources,
/// and leaves the monitors before `at` as they are.
pub proof fn lemma_batch_keeps_resources(
    views: Seq<MonitorView>,
    outcomes: Seq<FrameOutcome>,
    at: int,
    used: int,
)
    ensures
        batch(views, outcomes, at, used).views.len() == views.len(),
        forall|i: int|
            0 <= i < views.len() ==> {
                let after = #[trigger] batch(views, outcomes, at, used).views[i];
                &&& after.connector_id == views[i].connector_id
                &&& after.crtc == views[i].crtc
                &&& after.primary_plane == views[i].primary_plane
                &&& after.cursor_plane == views[i].cursor_plane
                &&& after.default_mode == views[i].default_mode
                &&& after.requested_mode == views[i].requested_mode
                &&& i < at ==> after == views[i]
            },
    decreases views.len() - at,
{
    if 0 <= at < views.len() {
        if !views[at].was_drawn {
            lemma_batch_keeps_resources(views, outcomes, at + 1, used);
        } else if outcomes[used] is Ready {
            let after = MonitorView { was_drawn: false, ..view_after(views[at], outcomes[used]) };
            lemma_batch_keeps_resources(views.update(at, after), outcomes, at + 1, used + 1);
        }
    }
}

/// A batch keeps the monitors apart.
pub proof fn lemma_batch_disjoint(views: Seq<MonitorView>, outcomes: Seq<FrameOutcome>)
    requires
        disjoint(views),
    ensures
        disjoint(batch(views, outcomes, 0, 0).views),
{
    lemma_batch_keeps_resources(views, outcomes, 0, 0);
    lemma_disjoint_kept(views, batch(views, outcomes, 0, 0).views);
}

/// In a batch that did not fail, the monitors whose drawn flag was cleared
/// are those whose connector is listed as committed: every monitor from
/// `at` on ends up not drawn, and a connector is listed exactly if its
/// monitor was drawn.
pub proof fn lemma_batch_commits_drawn(
    views: Seq<MonitorView>,
    outcomes: Seq<FrameOutcome>,
    at: int,
    used: int,
)
    requires
        0 <= at,
        batch(views, outcomes, at, used).failed is None,
    ensures
        forall|i: int|
            at <= i < views.len() ==> !(#[trigger] batch(views, outcomes, at, used).views[i]).was_drawn,
        forall|connector: u32|
            batch(views, outcomes, at, used).committed.contains(connector) <==> exists|i: int|
                at <= i < views.len() && (#[trigger] views[i]).was_drawn && views[i].connector_id
                    == connector,
    decreases views.len() - at,
{
    let all = batch(views, outcomes, at, used);
    if at < views.len() {
        if !views[at].was_drawn {
            lemma_batch_commits_drawn(views, outcomes, at + 1, used);
            lemma_batch_keeps_resources(views, outcomes, at + 1, used);
            assert forall|connector: u32| all.committed.contains(connector) implies exists|i: int|
                at <= i < views.len() && (#[trigger] views[i]).was_drawn && views[i].connector_id
                    == connector by {
            }
        } else {
            let after = MonitorView { was_drawn: false, ..view_after(views[at], outcomes[used]) };
            let next = views.update(at, after);
            let rest = batch(next, outcomes, at + 1, used + 1);
            lemma_batch_commits_drawn(next, outcomes, at + 1, used + 1);
            lemma_batch_keeps_resources(next, outcomes, at + 1, used + 1);
            assert forall|connector: u32| all.committed.contains(connector) <==> exists|i: int|
                at <= i < views.len() && (#[trigger] views[i]).was_drawn && views[i].connector_id
                    == connector by {
                let head = seq![views[at].connector_id];
                if all.committed.contains(connector) {
                    let k = choose|k: int|
                        0 <= k < all.committed.len() && all.committed[k] == connector;
                    if k == 0 {
                    } else {
                        assert(rest.committed.contains(connector));
                    }
                }
                if exists|i: int|
                    at <= i < views.len() && (#[trigger] views[i]).was_drawn
                        && views[i].connector_id == connector {
                    let i = choose|i: int|
                        at <= i < views.len() && (#[trigger] views[i]).was_drawn
                            && views[i].connector_id == connector;
                    if i == at {
                        assert(all.committed[0] == connector);
                    } else {
                        assert(next[i] == views[i]);
                        assert(rest.committed.contains(connector));
                        let k = choose|k: int|
                            0 <= k < rest.committed.len() && rest.committed[k] == connector;
                        assert(all.committed[k + 1] == connector);
                    }
                }
            }
        }
    }
}

impl<T> EasyDRM<T> {
    /// Whether `outcomes` holds an outcome that answers its plan for each
    /// drawn monitor, in the order of the monitors, up to the first failure.
    pub fn accepts(&self, outcomes: &Vec<FrameOutcome>) -> (fits: bool)
        ensures
            fits == answers_batch(self.views(), outcomes@, 0, 0),
    {
        let mut i: usize = 0;
        let mut k: usize = 0;
        while i < self.monitors.len()
            invariant
                k <= i <= self.monitors@.len(),
                answers_batch(self.views(), outcomes@, 0, 0) == answers_batch(
                    self.views(),
                    outcomes@,
                    i as int,
                    k as int,
                ),
            decreases self.monitors@.len() - i,
        {
            assert(self.views()[i as int] == self.monitors@[i as int]@);
            if self.monitors[i].was_drawn() {
                if k >= outcomes.len() {
                    return false;
                }
                if !self.monitors[i].answers_plan(&outcomes[k]) {
                    return false;
                }
                match &outcomes[k] {
                    FrameOutcome::Ready(_) => {
                        k += 1;
                    },
                    _ => {
                        return true;
                    },
                }
            }
            i += 1;
        }
        true
    }

    /// Prepares one request for the frames of all drawn monitors, given how
    /// the device work for them went: `outcomes` holds one outcome for each
    /// drawn monitor, in the order of the monitors, up to the first failure.
    ///
    /// Each drawn monitor takes its outcome as [`Monitor::swap_buffers`]
    /// says, its assignments go into the request, and its drawn flag is
    /// cleared. The first failure ends the batch with that monitor's error;
    /// that monitor and those after it stay drawn. Without a failure the
    /// result is the batch to submit. Monitors that were not drawn, the
    /// contexts of the caller and the groups stay as they are.
    pub fn swap_buffers(&mut self, outcomes: &Vec<FrameOutcome>) -> (made: Result<
        CommitBatch,
        EasyDRMError,
    >)
        requires
            answers_batch(old(self).views(), outcomes@, 0, 0),
        ensures
            final(self).views() == batch(old(self).views(), outcomes@, 0, 0).views,
            same_contexts(old(self).spec_monitors(), final(self).spec_monitors()),
            final(self).groups() == old(self).groups(),
            old(self).wf() ==> final(self).wf(),
            batch(old(self).views(), outcomes@, 0, 0).failed is None ==> (made matches Ok(ready)
                && ready.spec_committed() == batch(old(self).views(), outcomes@, 0, 0).committed
                && request_entries(ready.spec_request()) == assign_all(
                no_entries(),
                batch(old(self).views(), outcomes@, 0, 0).assignments,
            )),
            batch(old(self).views(), outcomes@, 0, 0).failed matches Some(k) ==> made matches Err(
                EasyDRMError::MonitorSetup(e),
            ) && reports(outcomes@[k], Err(e)),
    {
        let ghost total = batch(old(self).views(), outcomes@, 0, 0);
        let ghost mut done: Seq<Assignment> = Seq::empty();
        let mut request = AtomicModeReq::new();
        let mut committed: Vec<u32> = Vec::new();
        let mut i: usize = 0;
        let mut k: usize = 0;
        while i < self.monitors.len()
            invariant
                k <= i <= self.monitors@.len(),
                same_contexts(old(self).monitors@, self.monitors@),
                self.groups == old(self).groups,
                total == batch(old(self).views(), outcomes@, 0, 0),
                answers_batch(self.views(), outcomes@, i as int, k as int),
                total.views == batch(self.views(), outcomes@, i as int, k as int).views,
                total.failed == batch(self.views(), outcomes@, i as int, k as int).failed,
                total.assignments == done + batch(
                    self.views(),
                    outcomes@,
                    i as int,
                    k as int,
                ).assignments,
                total.committed == committed@ + batch(
                    self.views(),
                    outcomes@,
                    i as int,
                    k as int,
                ).committed,
                request_entries(request) == assign_all(no_entries(), done),
            decreases self.monitors@.len() - i,
        {
            let ghost before = self.views();
            if self.monitors[i].was_drawn() {
                let outcome = &outcomes[k];
                let result = self.monitors[i].swap_buffers(outcome, &mut request);
                proof {
                    crate::atomic::lemma_assign_all_concat(
                        no_entries(),
                        done,
                        assignments_after(before[i as int], *outcome),
                    );
                }
                match result {
                    Err(e) => {
                        proof {
                            assert(self.views() =~= before.update(
                                i as int,
                                view_after(before[i as int], *outcome),
                            ));
                            lemma_batch_keeps_resources(old(self).views(), outcomes@, 0, 0);
                            if old(self).wf() {
                                lemma_batch_disjoint(old(self).views(), outcomes@);
                            }
                        }
                        return Err(EasyDRMError::MonitorSetup(e));
                    },
                    Ok(()) => {
                        let connector = self.monitors[i].connector_id();
                        self.monitors[i].reset_drawn_flag();
                        committed.push(connector);
                        proof {
                            let after = MonitorView {
                                was_drawn: false,
                                ..view_after(before[i as int], *outcome)
                            };
                            assert(self.views() =~= before.update(i as int, after));
                            let rest = batch(self.views(), outcomes@, i + 1, k + 1);
                            let old_done = done;
                            done = done + assignments_after(before[i as int], *outcome);
                            assert(old_done + (assignments_after(before[i as int], *outcome)
                                + rest.assignments) =~= done + rest.assignments);
                            assert(committed@.drop_last() + (seq![connector] + rest.committed)
                                =~= committed@ + rest.committed);
                            lemma_answers_batch_local(
                                before,
                                self.views(),
                                outcomes@,
                                i + 1,
                                k + 1,
                            );
                        }
                        k += 1;
                    },
                }
            }
            i += 1;
        }
        proof {
            if old(self).wf() {
                lemma_batch_disjoint(old(self).views(), outcomes@);
            }
        }
        Ok(CommitBatch { request, committed })
    }

    /// Takes note of how the submission of a batch went. After a success
    /// every connector of the batch counts as committed in the cycle of the
    /// fastest group. A failure is reported, and nothing changes.
    pub fn commit_finished(&mut self, committed: &Vec<u32>, result: Result<(), String>) -> (done:
        Result<(), EasyDRMError>)
        ensures
            final(self).spec_monitors() == old(self).spec_monitors(),
            old(self).wf() ==> final(self).wf(),
            result is Ok ==> done is Ok && final(self).groups() == old(self).groups().mark_all(
                committed@,
            ),
            result is Err ==> final(self).groups() == old(self).groups(),
            result matches Err(detail) ==> (done matches Err(
                EasyDRMError::MonitorSetup(MonitorSetupError::DrmError(text)),
            ) && text@ == "Failed to commit: "@ + detail@),
    {
        match result {
            Err(detail) => Err(
                EasyDRMError::MonitorSetup(
                    MonitorSetupError::DrmError(
                        String::from_str("Failed to commit: ").concat(detail.as_str()),
                    ),
                ),
            ),
            Ok(()) => {
                let mut i: usize = 0;
                while i < committed.len()
                    invariant
                        i <= committed@.len(),
                        self.monitors == old(self).monitors,
                        self.groups@ == old(self).groups@.mark_all(committed@.take(i as int)),
                    decreases committed@.len() - i,
                {
                    proof {
                        let head = committed@.take(i + 1);
                        assert(head.drop_last() =~= committed@.take(i as int));
                    }
                    self.groups.mark_fast_group_commit(committed[i]);
                    i += 1;
                }
                proof {
                    assert(committed@.take(i as int) =~= committed@);
                    if old(self).wf() {
                        lemma_mark_all(old(self).groups(), committed@);
                    }
                }
                Ok(())
            },
        }
    }
}

/// What has to be built on the device for a monitor on a connector: a
/// rendering context of the given mode on the reserved resources, and the
/// caller's context for a surface of the given width and height.
#[derive(Debug, Clone, Copy, PartialEq, Eq)]
pub struct SetupPlan {
    pub connector: u32,
    pub allocation: MonitorResourceAllocation,
    pub mode: Mode,
    pub width: usize,
    pub height: usize,
}

/// A connector that got no monitor, and why.
#[derive(Debug, Clone, PartialEq, Eq)]
pub struct SkippedConnector {
    pub connector: u32,
    pub error: MonitorSetupError,
}

/// A pass over the connectors of a device that sets up a monitor on each
/// connector that has none and can carry one.
pub struct Discovery {
    device: DeviceSnapshot,
    next: usize,
    usage: ResourceUsage,
    needs_update: bool,
    awaiting: Option<SetupPlan>,
    skipped: Vec<SkippedConnector>,
}

/// The state of a pass.
pub struct DiscoveryView {
    /// What the device reported.
    pub device: DeviceSnapshot,
    /// The position of the next connector to look at.
    pub next: int,
    /// The resources in use, those of monitors set up in this pass too.
    pub used_crtcs: Set<u32>,
    pub used_primary_planes: Set<u32>,
    pub used_cursor_planes: Set<u32>,
    /// Whether the groups are to be rebuilt at the end of the pass.
    pub needs_update: bool,
    /// The plan that was handed out and is not finished.
    pub awaiting: Option<SetupPlan>,
    /// The connectors that got no monitor so far.
    pub skipped: Seq<SkippedConnector>,
}

impl View for Discovery {
    type V = DiscoveryView;

    closed spec fn view(&self) -> DiscoveryView {
        DiscoveryView {
            device: self.device,
            next: self.next as int,
            used_crtcs: self.usage.crtcs@,
            used_primary_planes: self.usage.primary_planes@,
            used_cursor_planes: self.usage.cursor_planes@,
            needs_update: self.needs_update,
            awaiting: self.awaiting,
            skipped: self.skipped@,
        }
    }
}

/// Whether one of the monitors is on the connector.
pub open spec fn owns(views: Seq<MonitorView>, connector: u32) -> bool {
    exists|i: int| 0 <= i < views.len() && (#[trigger] views[i]).connector_id == connector
}

/// The CRTCs that the monitors hold.
pub open spec fn used_crtcs_of(views: Seq<MonitorView>) -> Set<u32> {
    Set::new(|h: u32| exists|i: int| 0 <= i < views.len() && (#[trigger] views[i]).crtc.handle == h)
}

/// The primary planes that the monitors hold.
pub open spec fn used_primary_planes_of(views: Seq<MonitorView>) -> Set<u32> {
    Set::new(
        |h: u32| exists|i: int| 0 <= i < views.len() && (#[trigger] views[i]).primary_plane == h,
    )
}

/// The cursor planes that the monitors hold.
pub open spec fn used_cursor_planes_of(views: Seq<MonitorView>) -> Set<u32> {
    Set::new(
        |h: u32|
            exists|i: int| 0 <= i < views.len() && (#[trigger] views[i]).cursor_plane == Some(h),
    )
}

/// What becomes of a connector in a pass.
pub enum Verdict {
    /// It has a monitor already.
    Owned,
    /// It gets none, for this reason.
    Skipped(MonitorSetupError),
    /// A monitor can be set up on it by this plan.
    Planned(SetupPlan),
}

/// What becomes of the connector at position `at`: a connector with a
/// monitor is passed over; else resources are reserved for it out of what
/// is not in use, and the display's preferred mode is taken.
pub open spec fn verdict(views: Seq<MonitorView>, d: DiscoveryView, at: int) -> Verdict {
    let report = d.device.connectors@[at];
    if owns(views, report.handle) {
        Verdict::Owned
    } else {
        match allocation_of(
            d.device,
            report,
            d.used_crtcs,
            d.used_primary_planes,
            d.used_cursor_planes,
        ) {
            Err(e) => Verdict::Skipped(e),
            Ok(allocation) => match report.info {
                Err(detail) => Verdict::Skipped(MonitorSetupError::IOError(detail)),
                Ok(info) => match preferred_mode_of(info) {
                    Err(e) => Verdict::Skipped(e),
                    Ok(mode) => Verdict::Planned(
                        SetupPlan {
                            connector: report.handle,
                            allocation,
                            mode,
                            width: mode.hdisplay as usize,
                            height: mode.vdisplay as usize,
                        },
                    ),
                },
            },
        }
    }
}

/// The pass after it went on to the next connector that a monitor can be
/// set up on, or to the end. A pass that waits for a plan to be finished
/// stays where it is.
pub open spec fn scan(views: Seq<MonitorView>, d: DiscoveryView) -> DiscoveryView
    decreases d.device.connectors@.len() - d.next,
{
    if d.awaiting is Some || d.next < 0 || d.next >= d.device.connectors@.len() {
        d
    } else {
        match verdict(views, d, d.next) {
            Verdict::Owned => scan(views, DiscoveryView { next: d.next + 1, ..d }),
            Verdict::Skipped(error) => scan(
                views,
                DiscoveryView {
                    next: d.next + 1,
                    skipped: d.skipped.push(
                        SkippedConnector {
                            connector: d.device.connectors@[d.next].handle,
                            error,
                        },
                    ),
                    ..d
                },
            ),
            Verdict::Planned(plan) => DiscoveryView { next: d.next + 1, awaiting: Some(plan), ..d },
        }
    }
}

impl DiscoveryView {
    /// The pass fits the monitors: what they hold counts as in use, and a
    /// plan that waits to be finished is for the connector looked at last,
    /// which has no monitor, and reserves what is not in use.
    pub open spec fn fits(self, views: Seq<MonitorView>) -> bool {
        &&& 0 <= self.next <= self.device.connectors@.len()
        &&& used_crtcs_of(views).subset_of(self.used_crtcs)
        &&& used_primary_planes_of(views).subset_of(self.used_primary_planes)
        &&& used_cursor_planes_of(views).subset_of(self.used_cursor_planes)
        &&& self.awaiting matches Some(plan) ==> {
            &&& self.next > 0
            &&& self.device.connectors@[self.next - 1].handle == plan.connector
            &&& self.device.connectors@[self.next - 1].info matches Ok(info) && preferred_mode_of(
                info,
            ) == Ok::<Mode, MonitorSetupError>(plan.mode)
            &&& !owns(views, plan.connector)
            &&& !self.used_crtcs.contains(plan.allocation.crtc_info.handle)
            &&& !self.used_primary_planes.contains(plan.allocation.primary_plane)
            &&& plan.allocation.cursor_plane matches Some(cursor)
                ==> !self.used_cursor_planes.contains(cursor)
        }
    }

    /// The pass after the plan that it waited for was finished with a
    /// monitor: the resources of the plan are in use.
    pub open spec fn with_monitor(self, plan: SetupPlan) -> DiscoveryView {
        DiscoveryView {
            awaiting: None,
            used_crtcs: self.used_crtcs.insert(plan.allocation.crtc_info.handle),
            used_primary_planes: self.used_primary_planes.insert(plan.allocation.primary_plane),
            used_cursor_planes: match plan.allocation.cursor_plane {
                Some(cursor) => self.used_cursor_planes.insert(cursor),
                None => self.used_cursor_planes,
            },
            ..self
        }
    }

    /// The pass after the plan that it waited for was finished without a
    /// monitor.
    pub open spec fn with_failure(self, plan: SetupPlan, error: MonitorSetupError) -> DiscoveryView {
        DiscoveryView {
            awaiting: None,
            skipped: self.skipped.push(SkippedConnector { connector: plan.connector, error }),
            ..self
        }
    }
}

/// Going on in a pass that fits the monitors gives a pass that fits them.
pub proof fn lemma_scan_fits(views: Seq<MonitorView>, d: DiscoveryView)
    requires
        d.fits(views),
    ensures
        scan(views, d).fits(views),
        scan(views, d).awaiting is None ==> scan(views, d).next == d.device.connectors@.len()
            || d.awaiting is Some,
    decreases d.device.connectors@.len() - d.next,
{
    if d.awaiting is None && d.next < d.device.connectors@.len() {
        let report = d.device.connectors@[d.next];
        lemma_allocation_free(
            d.device,
            report,
            d.used_crtcs,
            d.used_primary_planes,
            d.used_cursor_planes,
        );
        match verdict(views, d, d.next) {
            Verdict::Owned => {
                lemma_scan_fits(views, DiscoveryView { next: d.next + 1, ..d });
            },
            Verdict::Skipped(error) => {
                lemma_scan_fits(
                    views,
                    DiscoveryView {
                        next: d.next + 1,
                        skipped: d.skipped.push(
                            SkippedConnector { connector: report.handle, error },
                        ),
                        ..d
                    },
                );
            },
            Verdict::Planned(plan) => {},
        }
    }
}

/// A monitor set up by a plan of a pass that fits the monitors shares no
/// resource with them, and the pass with its resources in use fits all of
/// them.
pub proof fn lemma_new_monitor_fits(
    views: Seq<MonitorView>,
    d: DiscoveryView,
    plan: SetupPlan,
    made: MonitorView,
)
    requires
        disjoint(views),
        d.fits(views),
        d.awaiting == Some(plan),
        made.connector_id == plan.connector,
        made.crtc == plan.allocation.crtc_info,
        made.primary_plane == plan.allocation.primary_plane,
        made.cursor_plane == plan.allocation.cursor_plane,
    ensures
        disjoint(views.push(made)),
        d.with_monitor(plan).fits(views.push(made)),
{
    let all = views.push(made);
    assert forall|i: int, j: int| 0 <= i < j < all.len() implies {
        &&& (#[trigger] all[i]).connector_id != (#[trigger] all[j]).connector_id
        &&& all[i].crtc.handle != all[j].crtc.handle
        &&& all[i].primary_plane != all[j].primary_plane
        &&& all[i].cursor_plane is Some && all[j].cursor_plane is Some ==> all[i].cursor_plane
            != all[j].cursor_plane
    } by {
    }
    let after = d.with_monitor(plan);
    assert forall|h: u32| used_crtcs_of(all).contains(h) implies after.used_crtcs.contains(h) by {
    }
    assert forall|h: u32| used_primary_planes_of(all).contains(h) implies after.used_primary_planes.contains(
        h,
    ) by {
    }
    assert forall|h: u32| used_cursor_planes_of(all).contains(h) implies after.used_cursor_planes.contains(
        h,
    ) by {
    }
}

impl<T> EasyDRM<T> {
    /// Begins a pass over the connectors that `device` reports. What the
    /// monitors hold counts as in use; the groups are rebuilt at the end of
    /// the pass.
    pub fn discover_monitors(&self, device: DeviceSnapshot) -> (pass: Discovery)
        ensures
            pass@ == (DiscoveryView {
                device,
                next: 0,
                used_crtcs: used_crtcs_of(self.views()),
                used_primary_planes: used_primary_planes_of(self.views()),
                used_cursor_planes: used_cursor_planes_of(self.views()),
                needs_update: true,
                awaiting: None,
                skipped: Seq::empty(),
            }),
            pass@.fits(self.views()),
    {
        let usage = self.current_resource_usage();
        proof {
            assert(usage.crtcs@ =~= used_crtcs_of(self.views()));
            assert(usage.primary_planes@ =~= used_primary_planes_of(self.views()));
            assert(usage.cursor_planes@ =~= used_cursor_planes_of(self.views()));
        }
        Discovery {
            device,
            next: 0,
            usage,
            needs_update: true,
            awaiting: None,
            skipped: Vec::new(),
        }
    }

    /// Goes on in the pass to the next connector that a monitor can be set
    /// up on, and hands out the plan for it; at the end of the connectors
    /// there is none. Connectors on the way that have a monitor are passed
    /// over, and those that cannot carry one are noted with the reason.
    /// While a plan waits to be finished, it is handed out again.
    pub fn next_setup(&self, pass: &mut Discovery) -> (plan: Option<SetupPlan>)
        ensures
            final(pass)@ == scan(self.views(), old(pass)@),
            plan == final(pass)@.awaiting,
            old(pass)@.fits(self.views()) ==> final(pass)@.fits(self.views()),
    {
        proof {
            if pass@.fits(self.views()) {
                lemma_scan_fits(self.views(), pass@);
            }
        }
        if pass.awaiting.is_some() {
            return pass.awaiting;
        }
        while pass.next < pass.device.connectors.len()
            invariant
                pass@.awaiting is None,
                scan(self.views(), old(pass)@) == scan(self.views(), pass@),
                old(pass)@.fits(self.views()) ==> scan(self.views(), old(pass)@).fits(self.views()),
            decreases pass.device.connectors@.len() - pass.next,
        {
            let at = pass.next;
            pass.next = at + 1;
            let report = &pass.device.connectors[at];
            if self.position(report.handle).is_none() {
                match pass.device.allocate_monitor_resources(report, &pass.usage) {
                    Err(error) => {
                        pass.skipped.push(SkippedConnector { connector: report.handle, error });
                    },
                    Ok(allocation) => {
                        match &report.info {
                            Err(detail) => {
                                pass.skipped.push(
                                    SkippedConnector {
                                        connector: report.handle,
                                        error: MonitorSetupError::IOError(detail.clone()),
                                    },
                                );
                            },
                            Ok(info) => {
                                match Monitor::<T>::preferred_mode(info) {
                                    Err(error) => {
                                        pass.skipped.push(
                                            SkippedConnector { connector: report.handle, error },
                                        );
                                    },
                                    Ok(mode) => {
                                        let (width, height) = mode.size();
                                        let plan = SetupPlan {
                                            connector: report.handle,
                                            allocation,
                                            mode,
                                            width: width as usize,
                                            height: height as usize,
                                        };
                                        pass.awaiting = Some(plan);
                                        return Some(plan);
                                    },
                                }
                            },
                        }
                    },
                }
            }
        }
        None
    }

    /// Finishes the plan that the pass waits for, given how the device work
    /// for it went. When the work succeeded, the monitor joins the monitors
    /// as the last of them, and its resources count as in use. When it
    /// failed, the connector is noted with the reason. A pass that waits
    /// for no plan stays as it is, and so do the monitors.
    pub fn finish_setup(&mut self, pass: &mut Discovery, outcome: SetupOutcome<T>)
        ensures
            final(self).groups() == old(self).groups(),
            old(pass)@.awaiting is None ==> final(pass)@ == old(pass)@ && final(self).spec_monitors()
                == old(self).spec_monitors(),
            old(pass)@.fits(old(self).views()) ==> final(pass)@.fits(final(self).views()),
            old(pass)@.fits(old(self).views()) && disjoint(old(self).views()) ==> disjoint(
                final(self).views(),
            ),
            old(pass)@.fits(old(self).views()) && old(self).wf() ==> final(self).wf(),
            old(pass)@.fits(old(self).views()) ==> (old(pass)@.awaiting matches Some(plan)
                ==> match outcome {
                SetupOutcome::Ready {
                    user_context,
                    connector_properties,
                    crtc_properties,
                    plane_properties,
                } => {
                    &&& final(pass)@ == old(pass)@.with_monitor(plan)
                    &&& final(self).spec_monitors().len() == old(self).spec_monitors().len() + 1
                    &&& final(self).spec_monitors().drop_last() == old(self).spec_monitors()
                    &&& final(self).spec_monitors().last()@ == initial_view(
                        plan.connector,
                        plan.allocation,
                        plan.mode,
                        connector_properties,
                        crtc_properties,
                        plane_properties,
                    )
                    &&& final(self).spec_monitors().last().spec_context() == user_context
                },
                _ => {
                    &&& final(self).spec_monitors() == old(self).spec_monitors()
                    &&& final(pass)@.skipped.len() == old(pass)@.skipped.len() + 1
                    &&& setup_fails_with(outcome, final(pass)@.skipped.last().error)
                    &&& final(pass)@ == old(pass)@.with_failure(
                        plan,
                        final(pass)@.skipped.last().error,
                    )
                },
            }),
    {
        let plan = match pass.awaiting {
            Some(plan) => plan,
            None => {
                return ;
            },
        };
        let ghost before = pass@;
        let ghost views = self.views();
        pass.awaiting = None;
        if pass.next == 0 || pass.next > pass.device.connectors.len() {
            return ;
        }
        let report = &pass.device.connectors[pass.next - 1];
        match &report.info {
            Err(_) => {},
            Ok(info) => {
                match Monitor::setup(plan.connector, info, plan.allocation, outcome) {
                    Ok(monitor) => {
                        pass.usage.crtcs.insert(plan.allocation.crtc_info.handle);
                        pass.usage.primary_planes.insert(plan.allocation.primary_plane);
                        if let Some(cursor) = plan.allocation.cursor_plane {
                            pass.usage.cursor_planes.insert(cursor);
                        }
                        proof {
                            if before.fits(views) {
                                lemma_new_monitor_fits_plain(views, before, plan, monitor@);
                                if disjoint(views) {
                                    lemma_new_monitor_fits(views, before, plan, monitor@);
                                }
                            }
                        }
                        self.monitors.push(monitor);
                        proof {
                            assert(self.views() =~= views.push(monitor@));
                        }
                    },
                    Err(error) => {
                        pass.skipped.push(SkippedConnector { connector: plan.connector, error });
                    },
                }
            },
        }
    }

    /// Ends the pass: the groups are rebuilt if the pass asks for it. The
    /// connectors that got no monitor are handed out with the reasons.
    pub fn finish_discovery(&mut self, pass: Discovery) -> (skipped: Vec<SkippedConnector>)
        ensures
            skipped@ == pass@.skipped,
            final(self).spec_monitors() == old(self).spec_monitors(),
            pass@.needs_update ==> final(self).groups() == rebuilt(members_of(old(self).views())),
            !pass@.needs_update ==> final(self).groups() == old(self).groups(),
            old(self).wf() ==> final(self).wf(),
    {
        if pass.needs_update {
            self.update_refresh_rate_groups();
        }
        pass.skipped
    }
}

/// The pass with the resources of a new monitor in use fits the monitors
/// with the new one, whether or not the monitors are apart.
pub proof fn lemma_new_monitor_fits_plain(
    views: Seq<MonitorView>,
    d: DiscoveryView,
    plan: SetupPlan,
    made: MonitorView,
)
    requires
        d.fits(views),
        d.awaiting == Some(plan),
        made.crtc == plan.allocation.crtc_info,
        made.primary_plane == plan.allocation.primary_plane,
        made.cursor_plane == plan.allocation.cursor_plane,
    ensures
        d.with_monitor(plan).fits(views.push(made)),
{
    let all = views.push(made);
    let after = d.with_monitor(plan);
    assert forall|h: u32| used_crtcs_of(all).contains(h) implies after.used_crtcs.contains(h) by {
    }
    assert forall|h: u32| used_primary_planes_of(all).contains(h) implies after.used_primary_planes.contains(
        h,
    ) by {
    }
    assert forall|h: u32| used_cursor_planes_of(all).contains(h) implies after.used_cursor_planes.contains(
        h,
    ) by {
    }
}

/// Those of the monitors whose connector the device still reports, in
/// their order.
pub open spec fn retained<T>(monitors: Seq<Monitor<T>>, device: DeviceSnapshot) -> Seq<Monitor<T>>
    decreases monitors.len(),
{
    if monitors.len() == 0 {
        Seq::empty()
    } else if reported(device, monitors.last()@.connector_id) {
        retained(monitors.drop_last(), device).push(monitors.last())
    } else {
        retained(monitors.drop_last(), device)
    }
}

/// Those of the monitors whose connector the device no longer reports, in
/// their order.
pub open spec fn removed<T>(monitors: Seq<Monitor<T>>, device: DeviceSnapshot) -> Seq<Monitor<T>>
    decreases monitors.len(),
{
    if monitors.len() == 0 {
        Seq::empty()
    } else if reported(device, monitors.last()@.connector_id) {
        removed(monitors.drop_last(), device)
    } else {
        removed(monitors.drop_last(), device).push(monitors.last())
    }
}

/// Whether the device reports a connector that has no monitor.
pub open spec fn has_new_connector(views: Seq<MonitorView>, device: DeviceSnapshot) -> bool {
    exists|i: int|
        0 <= i < device.connectors@.len() && !owns(views, (#[trigger] device.connectors@[i]).handle)
}

/// The monitors that stay are among the monitors, each is on a connector
/// that the device reports, and they are apart if the monitors were.
pub proof fn lemma_retained<T>(monitors: Seq<Monitor<T>>, device: DeviceSnapshot)
    ensures
        retained(monitors, device).len() + removed(monitors, device).len() == monitors.len(),
        forall|k: int|
            0 <= k < retained(monitors, device).len() ==> monitors.contains(
                #[trigger] retained(monitors, device)[k],
            ) && reported(device, retained(monitors, device)[k]@.connector_id),
        forall|k: int|
            0 <= k < removed(monitors, device).len() ==> !reported(
                device,
                (#[trigger] removed(monitors, device)[k])@.connector_id,
            ),
        forall|i: int|
            0 <= i < monitors.len() && reported(device, (#[trigger] monitors[i])@.connector_id)
                ==> retained(monitors, device).contains(monitors[i]),
        disjoint(views_of(monitors)) ==> disjoint(views_of(retained(monitors, device))),
    decreases monitors.len(),
{
    if monitors.len() > 0 {
        let head = monitors.drop_last();
        let last = monitors.last();
        lemma_retained(head, device);
        let kept = retained(monitors, device);
        let kept_head = retained(head, device);
        assert forall|k: int| 0 <= k < kept.len() implies monitors.contains(#[trigger] kept[k])
            && reported(device, kept[k]@.connector_id) by {
        }
        assert forall|i: int|
            0 <= i < monitors.len() && reported(
                device,
                (#[trigger] monitors[i])@.connector_id,
            ) implies kept.contains(monitors[i]) by {
            if i < head.len() {
                let k = choose|k: int| 0 <= k < kept_head.len() && kept_head[k] == head[i];
                assert(kept[k] == monitors[i]);
            } else {
                assert(kept[kept.len() - 1] == monitors[i]);
            }
        }
        if disjoint(views_of(monitors)) {
            assert forall|i: int, j: int| 0 <= i < j < head.len() implies {
                &&& (#[trigger] views_of(head)[i]).connector_id != (#[trigger] views_of(head)[j]).connector_id
                &&& views_of(head)[i].crtc.handle != views_of(head)[j].crtc.handle
                &&& views_of(head)[i].primary_plane != views_of(head)[j].primary_plane
                &&& views_of(head)[i].cursor_plane is Some && views_of(head)[j].cursor_plane is Some
                    ==> views_of(head)[i].cursor_plane != views_of(head)[j].cursor_plane
            } by {
                assert(views_of(monitors)[i].connector_id != views_of(monitors)[j].connector_id);
            }
            let kv = views_of(kept);
            assert forall|a: int, b: int| 0 <= a < b < kv.len() implies {
                &&& (#[trigger] kv[a]).connector_id != (#[trigger] kv[b]).connector_id
                &&& kv[a].crtc.handle != kv[b].crtc.handle
                &&& kv[a].primary_plane != kv[b].primary_plane
                &&& kv[a].cursor_plane is Some && kv[b].cursor_plane is Some ==> kv[a].cursor_plane
                    != kv[b].cursor_plane
            } by {
                if b < kept_head.len() {
                    assert(views_of(kept_head)[a].connector_id != views_of(kept_head)[b].connector_id);
                } else {
                    let i = choose|i: int| 0 <= i < head.len() && head[i] == kept_head[a];
                    let last = monitors.len() - 1;
                    assert(views_of(monitors)[i].connector_id != views_of(monitors)[last].connector_id);
                }
            }
        }
    }
}

impl<T> EasyDRM<T> {
    /// Reconciles the monitors with what `device` reports after a hot-plug.
    /// The monitors whose connector is gone are given up and handed out, in
    /// their order, for what is left of them to be released. Then a pass begins
    /// over the connectors of the device. The groups are rebuilt at the end
    /// of the pass if a monitor went or the device reports a connector
    /// without a monitor; until then they stay as they are.
    pub fn handle_hotplug(&mut self, device: DeviceSnapshot) -> (begun: (
        Discovery,
        Vec<Monitor<T>>,
    ))
        ensures
            final(self).spec_monitors() == retained(old(self).spec_monitors(), device),
            final(self).groups() == old(self).groups(),
            old(self).wf() ==> final(self).wf(),
            begun.1@ == removed(old(self).spec_monitors(), device),
            begun.0@ == (DiscoveryView {
                device,
                next: 0,
                used_crtcs: used_crtcs_of(final(self).views()),
                used_primary_planes: used_primary_planes_of(final(self).views()),
                used_cursor_planes: used_cursor_planes_of(final(self).views()),
                needs_update: removed(old(self).spec_monitors(), device).len() > 0
                    || has_new_connector(final(self).views(), device),
                awaiting: None,
                skipped: Seq::empty(),
            }),
            begun.0@.fits(final(self).views()),
    {
        let ghost all = self.monitors@;
        let ghost mut seen: int = 0;
        let mut gone: Vec<Monitor<T>> = Vec::new();
        let mut i: usize = 0;
        proof {
            assert(all.skip(0) =~= all);
        }
        while i < self.monitors.len()
            invariant
                0 <= seen <= all.len(),
                all == old(self).monitors@,
                self.groups == old(self).groups,
                i == retained(all.take(seen), device).len(),
                self.monitors@ == retained(all.take(seen), device) + all.skip(seen),
                gone@ == removed(all.take(seen), device),
            decreases all.len() - seen,
        {
            proof {
                assert(all.take(seen + 1).drop_last() =~= all.take(seen));
            }
            if device.has_connector(self.monitors[i].connector_id()) {
                proof {
                    assert(self.monitors@ =~= retained(all.take(seen + 1), device) + all.skip(
                        seen + 1,
                    ));
                    seen = seen + 1;
                }
                i += 1;
            } else {
                let monitor = self.monitors.remove(i);
                gone.push(monitor);
                proof {
                    assert(self.monitors@ =~= retained(all.take(seen + 1), device) + all.skip(
                        seen + 1,
                    ));
                    seen = seen + 1;
                }
            }
        }
        proof {
            lemma_retained(all, device);
        }
        let mut needs_update = gone.len() > 0;
        let mut n: usize = 0;
        while n < device.connectors.len() && !needs_update
            invariant
                n <= device.connectors@.len(),
                self.monitors@ == retained(all, device),
                needs_update ==> removed(all, device).len() > 0 || has_new_connector(
                    self.views(),
                    device,
                ),
                !needs_update ==> removed(all, device).len() == 0 && forall|j: int|
                    0 <= j < n ==> owns(self.views(), (#[trigger] device.connectors@[j]).handle),
                gone@ == removed(all, device),
            decreases device.connectors@.len() - n,
        {
            if self.position(device.connectors[n].handle).is_none() {
                needs_update = true;
            }
            n += 1;
        }
        let usage = self.current_resource_usage();
        proof {
            assert(usage.crtcs@ =~= used_crtcs_of(self.views()));
            assert(usage.primary_planes@ =~= used_primary_planes_of(self.views()));
            assert(usage.cursor_planes@ =~= used_cursor_planes_of(self.views()));
        }
        let pass = Discovery {
            device,
            next: 0,
            usage,
            needs_update,
            awaiting: None,
            skipped: Vec::new(),
        };
        (pass, gone)
    }
}

} // verus!
