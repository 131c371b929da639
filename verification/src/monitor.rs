//! One display: its DRM resources, its three display modes, and the state
//! that carries a frame from drawing to scan-out.

use crate::atomic::{add_properties, assign_all, request_entries, Assignment, PropertyValue};
use crate::gles_context::GlesContextError;
use crate::mode::{same_mode, Mode};
use crate::properties::PropertyTable;
use crate::text::{decimal, decimal_text};
use drm::control::atomic::AtomicModeReq;
use vstd::prelude::*;
use vstd::string::*;

verus! {

/// What the device reports about a CRTC.
#[derive(Debug, Clone, Copy, PartialEq, Eq)]
pub struct CrtcInfo {
    pub handle: u32,
    pub position: (u32, u32),
    pub mode: Option<Mode>,
    pub framebuffer: Option<u32>,
    pub gamma_length: u32,
}

/// What the device reports about a connector.
#[derive(Debug, Clone, PartialEq, Eq)]
pub struct ConnectorInfo {
    /// Whether a display is attached.
    pub connected: bool,
    /// The encoders that can drive the connector, in the device's order.
    pub encoders: Vec<u32>,
    /// The modes of the attached display, the preferred one first.
    pub modes: Vec<Mode>,
}

/// The scan-out resources reserved for one monitor.
#[derive(Debug, Clone, Copy, PartialEq, Eq)]
pub struct MonitorResourceAllocation {
    pub crtc_info: CrtcInfo,
    pub primary_plane: u32,
    pub cursor_plane: Option<u32>,
}

/// Errors that can occur while a monitor is set up or a frame is prepared.
#[derive(Debug, Clone, PartialEq, Eq)]
pub enum MonitorSetupError {
    /// A device query failed; the text is that of the operating system.
    IOError(String),
    NotConnected,
    NoCRTCFound,
    NoModesFound,
    NoPrimaryPlaneFound,
    GlesContextError(GlesContextError),
    DrmError(String),
}

impl MonitorSetupError {
    /// The text of the error.
    pub open spec fn spec_message(&self) -> Seq<char> {
        match self {
            MonitorSetupError::IOError(detail) => "IO Error: "@ + detail@,
            MonitorSetupError::NotConnected => "monitor is not connected"@,
            MonitorSetupError::NoCRTCFound => "monitor doesn't have any crtcs available"@,
            MonitorSetupError::NoModesFound => "monitor doesn't have any display modes"@,
            MonitorSetupError::NoPrimaryPlaneFound => "no primary plane found for this monitor"@,
            MonitorSetupError::GlesContextError(inner) => "failed to create OpenGL ES context: "@
                + inner.spec_message(),
            MonitorSetupError::DrmError(detail) => "DRM error: "@ + detail@,
        }
    }

    /// Renders the error as text.
    pub fn message(&self) -> (text: String)
        ensures
            text@ == self.spec_message(),
    {
        match self {
            MonitorSetupError::IOError(detail) => String::from_str("IO Error: ").concat(
                detail.as_str(),
            ),
            MonitorSetupError::NotConnected => String::from_str("monitor is not connected"),
            MonitorSetupError::NoCRTCFound => String::from_str(
                "monitor doesn't have any crtcs available",
            ),
            MonitorSetupError::NoModesFound => String::from_str(
                "monitor doesn't have any display modes",
            ),
            MonitorSetupError::NoPrimaryPlaneFound => String::from_str(
                "no primary plane found for this monitor",
            ),
            MonitorSetupError::GlesContextError(inner) => {
                let detail = inner.message();
                String::from_str("failed to create OpenGL ES context: ").concat(detail.as_str())
            },
            MonitorSetupError::DrmError(detail) => String::from_str("DRM error: ").concat(
                detail.as_str(),
            ),
        }
    }
}

/// The kind of DRM object whose properties a monitor caches.
#[derive(Debug, Clone, Copy, PartialEq, Eq, Structural)]
pub enum PropertyObject {
    Connector,
    Crtc,
    Plane,
}

/// How the work outside this crate went that setting a monitor up needs:
/// building the rendering context on the preferred mode, constructing the
/// user's context, and reading the property descriptors of the connector,
/// the CRTC and the primary plane, in this order.
#[derive(Debug)]
pub enum SetupOutcome<T> {
    /// No rendering context could be built.
    ContextFailed(GlesContextError),
    /// The property list of an object could not be read.
    PropertyQueryFailed(String),
    /// A property of the given object could not be described.
    PropertyNamesFailed(PropertyObject, String),
    /// Everything is at hand.
    Ready {
        user_context: T,
        connector_properties: PropertyTable,
        crtc_properties: PropertyTable,
        plane_properties: PropertyTable,
    },
}

/// The observable state of a monitor, apart from the user's context.
pub struct MonitorView {
    pub connector_id: u32,
    pub crtc: CrtcInfo,
    pub default_mode: Mode,
    pub requested_mode: Option<Mode>,
    pub current_mode: Option<Mode>,
    pub primary_plane: u32,
    pub cursor_plane: Option<u32>,
    pub can_render: bool,
    pub was_drawn: bool,
    pub previous_bo: Option<u64>,
    pub previous_fence_fd: Option<i32>,
    pub previous_sync: Option<usize>,
    pub connector_properties: PropertyTable,
    pub crtc_properties: PropertyTable,
    pub plane_properties: PropertyTable,
    pub first_frame: bool,
}

impl MonitorView {
    /// The mode to render in: the requested one, else the default.
    pub open spec fn active_mode(self) -> Mode {
        match self.requested_mode {
            Some(mode) => mode,
            None => self.default_mode,
        }
    }

    /// A mode set is due when the requested mode is not the one in hardware.
    pub open spec fn needs_mode_set(self) -> bool {
        self.requested_mode != self.current_mode
    }
}

/// The state of a monitor that has just been set up.
pub open spec fn initial_view(
    connector_id: u32,
    allocation: MonitorResourceAllocation,
    default_mode: Mode,
    connector_properties: PropertyTable,
    crtc_properties: PropertyTable,
    plane_properties: PropertyTable,
) -> MonitorView {
    MonitorView {
        connector_id,
        crtc: allocation.crtc_info,
        default_mode,
        requested_mode: None,
        current_mode: None,
        primary_plane: allocation.primary_plane,
        cursor_plane: allocation.cursor_plane,
        can_render: true,
        was_drawn: false,
        previous_bo: None,
        previous_fence_fd: None,
        previous_sync: None,
        connector_properties,
        crtc_properties,
        plane_properties,
        first_frame: true,
    }
}

/// The mode a monitor on this connector starts with, or why it cannot start.
pub open spec fn preferred_mode_of(connector: ConnectorInfo) -> Result<Mode, MonitorSetupError> {
    if !connector.connected {
        Err(MonitorSetupError::NotConnected)
    } else if connector.modes@.len() == 0 {
        Err(MonitorSetupError::NoModesFound)
    } else {
        Ok(connector.modes@[0])
    }
}

/// The text that introduces a failure to describe the properties of `object`.
pub open spec fn property_failure_prefix(object: PropertyObject) -> Seq<char> {
    match object {
        PropertyObject::Connector => "Failed to get connector properties: "@,
        PropertyObject::Crtc => "Failed to get CRTC properties: "@,
        PropertyObject::Plane => "Failed to get plane properties: "@,
    }
}

/// `error` is the error with which setting a monitor up fails after the
/// device work ended in `outcome`.
pub open spec fn setup_fails_with<T>(outcome: SetupOutcome<T>, error: MonitorSetupError) -> bool {
    match outcome {
        SetupOutcome::ContextFailed(e) => error == MonitorSetupError::GlesContextError(e),
        SetupOutcome::PropertyQueryFailed(detail) => error == MonitorSetupError::IOError(detail),
        SetupOutcome::PropertyNamesFailed(object, detail) => error matches MonitorSetupError::DrmError(
            text,
        ) && text@ == property_failure_prefix(object) + detail@,
        SetupOutcome::Ready { .. } => false,
    }
}

/// `made` is what setting a monitor up on the connector gives.
pub open spec fn setup_made<T>(
    connector_id: u32,
    connector: ConnectorInfo,
    allocation: MonitorResourceAllocation,
    outcome: SetupOutcome<T>,
    made: Result<Monitor<T>, MonitorSetupError>,
) -> bool {
    match preferred_mode_of(connector) {
        Err(e) => made matches Err(got) && got == e,
        Ok(mode) => match outcome {
            SetupOutcome::Ready {
                user_context,
                connector_properties,
                crtc_properties,
                plane_properties,
            } => made matches Ok(monitor) && monitor@ == initial_view(
                connector_id,
                allocation,
                mode,
                connector_properties,
                crtc_properties,
                plane_properties,
            ) && monitor.spec_context() == user_context,
            _ => made matches Err(got) && setup_fails_with(outcome, got),
        },
    }
}

/// A connected display with the resources reserved for it. `T` is the
/// caller's own per-monitor context.
pub struct Monitor<T> {
    connector_id: u32,
    current_crtc: CrtcInfo,
    default_mode: Mode,
    requested_mode: Option<Mode>,
    current_mode: Option<Mode>,
    primary_plane_id: u32,
    cursor_plane_id: Option<u32>,
    can_render: bool,
    was_drawn: bool,
    previous_bo: Option<u64>,
    previous_fence_fd: Option<i32>,
    previous_sync: Option<usize>,
    connector_properties: PropertyTable,
    crtc_properties: PropertyTable,
    plane_properties: PropertyTable,
    first_frame: bool,
    user_context: T,
}

impl<T> View for Monitor<T> {
    type V = MonitorView;

    closed spec fn view(&self) -> MonitorView {
        MonitorView {
            connector_id: self.connector_id,
            crtc: self.current_crtc,
            default_mode: self.default_mode,
            requested_mode: self.requested_mode,
            current_mode: self.current_mode,
            primary_plane: self.primary_plane_id,
            cursor_plane: self.cursor_plane_id,
            can_render: self.can_render,
            was_drawn: self.was_drawn,
            previous_bo: self.previous_bo,
            previous_fence_fd: self.previous_fence_fd,
            previous_sync: self.previous_sync,
            connector_properties: self.connector_properties,
            crtc_properties: self.crtc_properties,
            plane_properties: self.plane_properties,
            first_frame: self.first_frame,
        }
    }
}

impl<T> Monitor<T> {
    /// The caller's context as a specification value.
    pub closed spec fn spec_context(&self) -> T {
        self.user_context
    }

    /// The mode that a monitor on `connector` starts with: the first one the
    /// display reports. A connector without a display, or a display without
    /// modes, cannot carry a monitor.
    pub fn preferred_mode(connector: &ConnectorInfo) -> (mode: Result<Mode, MonitorSetupError>)
        ensures
            mode == preferred_mode_of(*connector),
    {
        if !connector.connected {
            Err(MonitorSetupError::NotConnected)
        } else if connector.modes.len() == 0 {
            Err(MonitorSetupError::NoModesFound)
        } else {
            Ok(connector.modes[0])
        }
    }

    /// Sets a monitor up on the connector `connector_id`, described by
    /// `connector`, with the resources of `allocation`, given how the work
    /// on the device went. The connector is judged first; then the first
    /// failure of that work decides the error. On success the monitor
    /// renders in its default mode, has no mode in hardware yet, may be
    /// rendered to and has not been drawn.
    pub fn setup(
        connector_id: u32,
        connector: &ConnectorInfo,
        allocation: MonitorResourceAllocation,
        outcome: SetupOutcome<T>,
    ) -> (made: Result<Monitor<T>, MonitorSetupError>)
        ensures
            setup_made(connector_id, *connector, allocation, outcome, made),
    {
        let default_mode = match Self::preferred_mode(connector) {
            Ok(mode) => mode,
            Err(e) => {
                return Err(e);
            },
        };
        match outcome {
            SetupOutcome::ContextFailed(e) => Err(MonitorSetupError::GlesContextError(e)),
            SetupOutcome::PropertyQueryFailed(detail) => Err(MonitorSetupError::IOError(detail)),
            SetupOutcome::PropertyNamesFailed(object, detail) => {
                let prefix = match object {
                    PropertyObject::Connector => "Failed to get connector properties: ",
                    PropertyObject::Crtc => "Failed to get CRTC properties: ",
                    PropertyObject::Plane => "Failed to get plane properties: ",
                };
                Err(
                    MonitorSetupError::DrmError(
                        String::from_str(prefix).concat(detail.as_str()),
                    ),
                )
            },
            SetupOutcome::Ready {
                user_context,
                connector_properties,
                crtc_properties,
                plane_properties,
            } => Ok(
                Monitor {
                    connector_id,
                    current_crtc: allocation.crtc_info,
                    default_mode,
                    requested_mode: None,
                    current_mode: None,
                    primary_plane_id: allocation.primary_plane,
                    cursor_plane_id: allocation.cursor_plane,
                    can_render: true,
                    was_drawn: false,
                    previous_bo: None,
                    previous_fence_fd: None,
                    previous_sync: None,
                    connector_properties,
                    crtc_properties,
                    plane_properties,
                    first_frame: true,
                    user_context,
                },
            ),
        }
    }

    /// The caller's context.
    pub fn context(&self) -> (ctx: &T)
        ensures
            *ctx == self.spec_context(),
    {
        &self.user_context
    }

    /// Whether the monitor is ready to be rendered to: no frame of it is
    /// waiting for its page flip.
    pub fn can_render(&self) -> (ready: bool)
        ensures
            ready == self@.can_render,
    {
        self.can_render
    }

    /// Whether the monitor was drawn to since its last commit.
    pub fn was_drawn(&self) -> (drawn: bool)
        ensures
            drawn == self@.was_drawn,
    {
        self.was_drawn
    }

    /// Takes note of a page flip that the device reported for `crtc`: if it
    /// is the monitor's CRTC, the monitor can be rendered to again.
    pub fn page_flipped(&mut self, crtc: u32)
        ensures
            final(self)@ == step(old(self)@, MonitorOp::PageFlip(crtc)),
            final(self).spec_context() == old(self).spec_context(),
    {
        if self.current_crtc.handle == crtc {
            self.set_can_render(true);
        }
    }

    /// Records whether the monitor may be rendered to.
    pub(crate) fn set_can_render(&mut self, value: bool)
        ensures
            final(self)@ == (MonitorView { can_render: value, ..old(self)@ }),
            final(self).spec_context() == old(self).spec_context(),
    {
        self.can_render = value;
    }

    /// Marks the monitor as not drawn, for the next frame.
    pub(crate) fn reset_drawn_flag(&mut self)
        ensures
            final(self)@ == (MonitorView { was_drawn: false, ..old(self)@ }),
            final(self).spec_context() == old(self).spec_context(),
    {
        self.was_drawn = false;
    }

    /// Notes the attempt to make the monitor's rendering context current.
    /// When it succeeded the monitor counts as drawn for this frame; when it
    /// failed nothing changes and the failure is reported.
    pub fn make_current(&mut self, made_current: bool) -> (done: Result<(), GlesContextError>)
        ensures
            final(self).spec_context() == old(self).spec_context(),
            final(self)@ == step(old(self)@, MonitorOp::MakeCurrent(made_current)),
            made_current ==> done is Ok && final(self)@ == (MonitorView {
                was_drawn: true,
                ..old(self)@
            }),
            !made_current ==> done == Err::<(), GlesContextError>(
                GlesContextError::MakeCurrentFailed,
            ) && final(self)@ == old(self)@,
    {
        if !made_current {
            return Err(GlesContextError::MakeCurrentFailed);
        }
        self.was_drawn = true;
        Ok(())
    }

    /// Whether the next commit has to set the mode.
    pub fn needs_mode_set(&self) -> (due: bool)
        ensures
            due == self@.needs_mode_set(),
            due == (self@.requested_mode != self@.current_mode),
    {
        !same_mode(&self.requested_mode, &self.current_mode)
    }

    /// Records that the requested mode is now the one in hardware.
    pub(crate) fn mark_mode_set(&mut self)
        ensures
            final(self)@ == (MonitorView {
                current_mode: old(self)@.requested_mode,
                ..old(self)@
            }),
            final(self).spec_context() == old(self).spec_context(),
            !final(self)@.needs_mode_set(),
    {
        self.current_mode = self.requested_mode;
    }

    /// Forgets the mode in hardware, as after the display was taken away
    /// from this process; the next frame counts as a first frame again.
    pub fn clear_mode_state(&mut self)
        ensures
            final(self)@ == step(old(self)@, MonitorOp::ClearModeState),
            final(self).spec_context() == old(self).spec_context(),
    {
        self.current_mode = None;
        self.first_frame = true;
    }

    /// The connector that the monitor is attached to.
    pub fn connector_id(&self) -> (id: u32)
        ensures
            id == self@.connector_id,
    {
        self.connector_id
    }

    /// The CRTC that scans the monitor out.
    pub fn crtc(&self) -> (info: &CrtcInfo)
        ensures
            *info == self@.crtc,
    {
        &self.current_crtc
    }

    /// The display's preferred mode.
    pub fn default_mode(&self) -> (mode: &Mode)
        ensures
            *mode == self@.default_mode,
    {
        &self.default_mode
    }

    /// The mode most recently committed to hardware, if any.
    pub fn current_mode(&self) -> (mode: Option<&Mode>)
        ensures
            mode.is_some() == self@.current_mode.is_some(),
            mode matches Some(m) ==> *m == self@.current_mode.unwrap(),
    {
        self.current_mode.as_ref()
    }

    /// The mode asked for in place of the default, if any.
    pub fn requested_mode(&self) -> (mode: Option<&Mode>)
        ensures
            mode.is_some() == self@.requested_mode.is_some(),
            mode matches Some(m) ==> *m == self@.requested_mode.unwrap(),
    {
        self.requested_mode.as_ref()
    }

    /// Asks for `mode` in place of the default, or for the default again.
    /// The change reaches the hardware with the next commit.
    pub fn set_mode(&mut self, mode: Option<Mode>)
        ensures
            final(self)@ == step(old(self)@, MonitorOp::SetMode(mode)),
            final(self)@ == (MonitorView { requested_mode: mode, ..old(self)@ }),
            final(self).spec_context() == old(self).spec_context(),
    {
        self.requested_mode = mode;
    }

    /// The mode to render in: the requested one if there is one, else the
    /// default.
    pub fn active_mode(&self) -> (mode: &Mode)
        ensures
            *mode == self@.active_mode(),
            self@.requested_mode is None ==> *mode == self@.default_mode,
    {
        match &self.requested_mode {
            Some(mode) => mode,
            None => &self.default_mode,
        }
    }

    /// The plane that carries the monitor's frames.
    pub fn primary_plane(&self) -> (plane: u32)
        ensures
            plane == self@.primary_plane,
    {
        self.primary_plane_id
    }

    /// The plane reserved for a cursor, if the device has one to spare.
    pub fn cursor_plane(&self) -> (plane: Option<u32>)
        ensures
            plane == self@.cursor_plane,
    {
        self.cursor_plane_id
    }

    /// Width and height of the active mode.
    pub fn size(&self) -> (dims: (u16, u16))
        ensures
            dims == (self@.active_mode().hdisplay, self@.active_mode().vdisplay),
    {
        self.active_mode().size()
    }
}

/// What a fence that was asked of the graphics library amounts to: `sync`
/// is the address of the sync object, 0 if none was created, and `fence_fd`
/// the descriptor duplicated from it, which counts only if there is a sync
/// object. A negative descriptor is no fence.
pub open spec fn fence_outcome(sync: usize, fence_fd: i32) -> Result<(i32, usize), Seq<char>> {
    if sync == 0 {
        Err("Failed to create EGL sync"@)
    } else if fence_fd < 0 {
        Err("Failed to duplicate fence FD: fence_fd="@ + decimal_text(fence_fd))
    } else {
        Ok((fence_fd, sync))
    }
}

/// Judges the fence made for a frame; see [`fence_outcome`].
pub fn create_egl_fence(sync: usize, fence_fd: i32) -> (made: Result<(i32, usize), String>)
    ensures
        fence_outcome(sync, fence_fd) matches Ok(pair) ==> made == Ok::<(i32, usize), String>(pair),
        fence_outcome(sync, fence_fd) matches Err(text) ==> made matches Err(got) && got@ == text,
{
    if sync == 0 {
        return Err(String::from_str("Failed to create EGL sync"));
    }
    if fence_fd < 0 {
        let number = decimal(fence_fd);
        return Err(
            String::from_str("Failed to duplicate fence FD: fence_fd=").concat(number.as_str()),
        );
    }
    Ok((fence_fd, sync))
}

/// What has to happen on the device before a drawn monitor can commit its
/// frame: after the buffer swap the fence and the sync object of the frame
/// before are released, a new fence is made, the new buffer is wrapped in a
/// framebuffer of the given depth and bits per pixel, and, if the mode has
/// to be set, a property blob is made of `mode_blob`.
#[derive(Debug, Clone, Copy, PartialEq, Eq)]
pub struct FramePlan {
    pub close_fence: Option<i32>,
    pub destroy_sync: Option<usize>,
    pub mode_blob: Option<Mode>,
    pub framebuffer_depth: u32,
    pub framebuffer_bpp: u32,
}

/// What the device work for one frame produced.
#[derive(Debug, Clone, Copy, PartialEq, Eq)]
pub struct FrameResources {
    /// The buffer object that holds the frame.
    pub buffer: u64,
    /// The sync object behind the fence, by its address.
    pub sync: usize,
    /// The descriptor of the fence that signals the end of rendering.
    pub fence_fd: i32,
    /// The framebuffer that wraps the buffer.
    pub framebuffer: u32,
    /// The blob made of the mode, if the plan asked for one.
    pub mode_blob: Option<u64>,
}

/// How far the device work for one frame got, in the order of the plan.
#[derive(Debug, Clone, PartialEq, Eq)]
pub enum FrameOutcome {
    /// The rendering context could not be made current.
    MakeCurrentFailed,
    /// The buffers could not be swapped, or the front buffer not locked.
    SwapFailed(GlesContextError),
    /// No fence could be made; the text says why.
    FenceFailed(String),
    /// The device did not accept the buffer as a framebuffer.
    FramebufferFailed(String),
    /// The device did not accept the mode as a blob.
    ModeBlobFailed(String),
    /// Everything is at hand.
    Ready(FrameResources),
}

/// What is left to release when a monitor goes away.
#[derive(Debug, Clone, Copy, PartialEq, Eq)]
pub struct Teardown {
    pub close_fence: Option<i32>,
    pub destroy_sync: Option<usize>,
}

/// What is left to release of a monitor in state `v`.
pub open spec fn teardown_of(v: MonitorView) -> Teardown {
    Teardown { close_fence: v.previous_fence_fd, destroy_sync: v.previous_sync }
}

/// The plan for the next frame of a monitor in state `v`.
pub open spec fn frame_plan(v: MonitorView) -> FramePlan {
    FramePlan {
        close_fence: v.previous_fence_fd,
        destroy_sync: v.previous_sync,
        mode_blob: if v.needs_mode_set() {
            Some(v.active_mode())
        } else {
            None
        },
        framebuffer_depth: 24,
        framebuffer_bpp: 32,
    }
}

/// The one assignment that ties the connector to the monitor's CRTC.
pub open spec fn connector_assignment(v: MonitorView) -> Assignment {
    Assignment {
        object: v.connector_id,
        property: v.connector_properties.handle_of("CRTC_ID"@).unwrap(),
        value: PropertyValue::Crtc(v.crtc.handle),
    }
}

/// An assignment to a property of the monitor's primary plane.
pub open spec fn plane_assignment(v: MonitorView, name: Seq<char>, value: PropertyValue)
    -> Assignment {
    Assignment {
        object: v.primary_plane,
        property: v.plane_properties.handle_of(name).unwrap(),
        value,
    }
}

/// The assignments of a mode set: the connector is tied to the CRTC, the
/// CRTC gets the mode blob and is switched on, and the primary plane shows
/// the whole buffer (the source rectangle in 16.16 fixed point) on the whole
/// of the active mode.
pub open spec fn mode_set_assignments(v: MonitorView, blob: u64) -> Seq<Assignment> {
    let width = v.active_mode().hdisplay as u64;
    let height = v.active_mode().vdisplay as u64;
    seq![
        connector_assignment(v),
        Assignment {
            object: v.crtc.handle,
            property: v.crtc_properties.handle_of("MODE_ID"@).unwrap(),
            value: PropertyValue::Blob(blob),
        },
        Assignment {
            object: v.crtc.handle,
            property: v.crtc_properties.handle_of("ACTIVE"@).unwrap(),
            value: PropertyValue::Boolean(true),
        },
        plane_assignment(v, "CRTC_ID"@, PropertyValue::Crtc(v.crtc.handle)),
        plane_assignment(v, "SRC_X"@, PropertyValue::UnsignedRange(0)),
        plane_assignment(v, "SRC_Y"@, PropertyValue::UnsignedRange(0)),
        plane_assignment(v, "SRC_W"@, PropertyValue::UnsignedRange((width * 65536) as u64)),
        plane_assignment(v, "SRC_H"@, PropertyValue::UnsignedRange((height * 65536) as u64)),
        plane_assignment(v, "CRTC_X"@, PropertyValue::SignedRange(0)),
        plane_assignment(v, "CRTC_Y"@, PropertyValue::SignedRange(0)),
        plane_assignment(v, "CRTC_W"@, PropertyValue::UnsignedRange(width)),
        plane_assignment(v, "CRTC_H"@, PropertyValue::UnsignedRange(height)),
    ]
}

/// The assignment that hands the fence to the device: to the CRTC if it has
/// the property `IN_FENCE_FD`, else to the plane if that has it, else none.
pub open spec fn fence_assignments(v: MonitorView, fence_fd: i32) -> Seq<Assignment> {
    if v.crtc_properties.handle_of("IN_FENCE_FD"@) is Some {
        seq![
            Assignment {
                object: v.crtc.handle,
                property: v.crtc_properties.handle_of("IN_FENCE_FD"@).unwrap(),
                value: PropertyValue::SignedRange(fence_fd as i64),
            },
        ]
    } else if v.plane_properties.handle_of("IN_FENCE_FD"@) is Some {
        seq![plane_assignment(v, "IN_FENCE_FD"@, PropertyValue::SignedRange(fence_fd as i64))]
    } else {
        Seq::empty()
    }
}

/// All assignments of one frame: those of the mode set if one is due, the
/// new framebuffer on the primary plane, and the fence.
pub open spec fn frame_assignments(v: MonitorView, frame: FrameResources) -> Seq<Assignment> {
    let mode_set = if v.needs_mode_set() {
        mode_set_assignments(v, frame.mode_blob.unwrap())
    } else {
        Seq::empty()
    };
    mode_set + seq![plane_assignment(v, "FB_ID"@, PropertyValue::Framebuffer(frame.framebuffer))]
        + fence_assignments(v, frame.fence_fd)
}

/// The properties that a mode set assigns are all there.
pub open spec fn has_mode_set_properties(v: MonitorView) -> bool {
    &&& v.connector_properties.handle_of("CRTC_ID"@) is Some
    &&& v.crtc_properties.handle_of("MODE_ID"@) is Some
    &&& v.crtc_properties.handle_of("ACTIVE"@) is Some
    &&& v.plane_properties.handle_of("CRTC_ID"@) is Some
    &&& v.plane_properties.handle_of("SRC_X"@) is Some
    &&& v.plane_properties.handle_of("SRC_Y"@) is Some
    &&& v.plane_properties.handle_of("SRC_W"@) is Some
    &&& v.plane_properties.handle_of("SRC_H"@) is Some
    &&& v.plane_properties.handle_of("CRTC_X"@) is Some
    &&& v.plane_properties.handle_of("CRTC_Y"@) is Some
    &&& v.plane_properties.handle_of("CRTC_W"@) is Some
    &&& v.plane_properties.handle_of("CRTC_H"@) is Some
}

/// The properties that the next frame assigns are all there.
pub open spec fn has_frame_properties(v: MonitorView) -> bool {
    &&& v.plane_properties.handle_of("FB_ID"@) is Some
    &&& v.needs_mode_set() ==> has_mode_set_properties(v)
}

/// The outcome is one that following the plan of `v` can give, and the
/// monitor has the properties that are assigned up to that point.
pub open spec fn answers_plan(v: MonitorView, outcome: FrameOutcome) -> bool {
    match outcome {
        FrameOutcome::ModeBlobFailed(_) => v.needs_mode_set() && v.connector_properties.handle_of(
            "CRTC_ID"@,
        ) is Some,
        FrameOutcome::Ready(frame) => {
            &&& has_frame_properties(v)
            &&& v.needs_mode_set() ==> frame.mode_blob is Some
        },
        _ => true,
    }
}

/// The state after the fence and the sync object of the last frame were
/// released.
pub open spec fn released_view(v: MonitorView) -> MonitorView {
    MonitorView { previous_fence_fd: None, previous_sync: None, ..v }
}

/// The state after the frame was put into a request: the monitor holds the
/// resources of this frame, waits for its page flip, and counts the
/// requested mode as set if a mode set was due.
pub open spec fn committed_view(v: MonitorView, frame: FrameResources) -> MonitorView {
    MonitorView {
        previous_bo: Some(frame.buffer),
        previous_fence_fd: Some(frame.fence_fd),
        previous_sync: Some(frame.sync),
        first_frame: false,
        can_render: false,
        current_mode: if v.needs_mode_set() {
            v.requested_mode
        } else {
            v.current_mode
        },
        ..v
    }
}

/// The state of a monitor after the device work for a frame ended in
/// `outcome`.
pub open spec fn view_after(v: MonitorView, outcome: FrameOutcome) -> MonitorView {
    match outcome {
        FrameOutcome::MakeCurrentFailed => v,
        FrameOutcome::SwapFailed(_) => v,
        FrameOutcome::FenceFailed(_) => released_view(v),
        FrameOutcome::FramebufferFailed(_) => released_view(v),
        FrameOutcome::ModeBlobFailed(_) => released_view(v),
        FrameOutcome::Ready(frame) => committed_view(v, frame),
    }
}

/// What the frame adds to the request.
pub open spec fn assignments_after(v: MonitorView, outcome: FrameOutcome) -> Seq<Assignment> {
    match outcome {
        FrameOutcome::ModeBlobFailed(_) => seq![connector_assignment(v)],
        FrameOutcome::Ready(frame) => frame_assignments(v, frame),
        _ => Seq::empty(),
    }
}

/// The text of the DRM error that ends the frame, if the device work failed
/// after the rendering context was made current.
pub open spec fn frame_failure(outcome: FrameOutcome) -> Option<Seq<char>> {
    match outcome {
        FrameOutcome::SwapFailed(e) => Some("Failed to swap buffers: "@ + e.spec_message()),
        FrameOutcome::FenceFailed(detail) => Some("Failed to create fence: "@ + detail@),
        FrameOutcome::FramebufferFailed(detail) => Some("Failed to add framebuffer: "@ + detail@),
        FrameOutcome::ModeBlobFailed(detail) => Some("Failed to create mode blob: "@ + detail@),
        _ => None,
    }
}

/// `done` is what a frame that ended in `outcome` reports: success if the
/// device work succeeded, else the error of the step that failed.
pub open spec fn reports(outcome: FrameOutcome, done: Result<(), MonitorSetupError>) -> bool {
    match outcome {
        FrameOutcome::Ready(_) => done is Ok,
        FrameOutcome::MakeCurrentFailed => done == Err::<(), MonitorSetupError>(
            MonitorSetupError::GlesContextError(GlesContextError::MakeCurrentFailed),
        ),
        _ => done matches Err(MonitorSetupError::DrmError(text)) && text@ == frame_failure(
            outcome,
        ).unwrap(),
    }
}

impl<T> Monitor<T> {
    /// The caller's context, to be changed in place. Nothing else of the
    /// monitor changes.
    pub fn context_mut(&mut self) -> (ctx: &mut T)
        ensures
            *ctx == old(self).spec_context(),
            final(self).spec_context() == *final(ctx),
            final(self)@ == old(self)@,
    {
        &mut self.user_context
    }

    /// The buffer object that is being scanned out, kept until the next
    /// frame replaces it.
    pub fn previous_bo(&self) -> (buffer: Option<u64>)
        ensures
            buffer == self@.previous_bo,
    {
        self.previous_bo
    }

    /// The fence handed to the device with the last frame.
    pub fn previous_fence_fd(&self) -> (fence: Option<i32>)
        ensures
            fence == self@.previous_fence_fd,
    {
        self.previous_fence_fd
    }

    /// The sync object behind that fence.
    pub fn previous_sync(&self) -> (sync: Option<usize>)
        ensures
            sync == self@.previous_sync,
    {
        self.previous_sync
    }

    /// Whether the monitor has not committed a frame since it was set up or
    /// its mode state was cleared.
    pub fn first_frame(&self) -> (first: bool)
        ensures
            first == self@.first_frame,
    {
        self.first_frame
    }

    /// What has to happen on the device for the next frame.
    pub fn plan_frame(&self) -> (plan: FramePlan)
        ensures
            plan == frame_plan(self@),
    {
        let mode_blob = if self.needs_mode_set() {
            Some(*self.active_mode())
        } else {
            None
        };
        FramePlan {
            close_fence: self.previous_fence_fd,
            destroy_sync: self.previous_sync,
            mode_blob,
            framebuffer_depth: 24,
            framebuffer_bpp: 32,
        }
    }

    /// Whether the monitor has every property that its next frame assigns.
    pub fn has_frame_properties(&self) -> (complete: bool)
        ensures
            complete == has_frame_properties(self@),
    {
        if !self.plane_properties.contains("FB_ID") {
            return false;
        }
        if !self.needs_mode_set() {
            return true;
        }
        self.connector_properties.contains("CRTC_ID") && self.crtc_properties.contains("MODE_ID")
            && self.crtc_properties.contains("ACTIVE") && self.plane_properties.contains("CRTC_ID")
            && self.plane_properties.contains("SRC_X") && self.plane_properties.contains("SRC_Y")
            && self.plane_properties.contains("SRC_W") && self.plane_properties.contains("SRC_H")
            && self.plane_properties.contains("CRTC_X") && self.plane_properties.contains("CRTC_Y")
            && self.plane_properties.contains("CRTC_W") && self.plane_properties.contains("CRTC_H")
    }

    /// Whether `outcome` is one that following the monitor's plan can give,
    /// and the monitor has the properties that are assigned up to there.
    pub fn answers_plan(&self, outcome: &FrameOutcome) -> (fits: bool)
        ensures
            fits == answers_plan(self@, *outcome),
    {
        match outcome {
            FrameOutcome::ModeBlobFailed(_) => self.needs_mode_set()
                && self.connector_properties.contains("CRTC_ID"),
            FrameOutcome::Ready(frame) => self.has_frame_properties() && (!self.needs_mode_set()
                || frame.mode_blob.is_some()),
            _ => true,
        }
    }

    /// The assignment that ties the connector to the CRTC.
    fn connector_assignment(&self) -> (item: Assignment)
        requires
            self@.connector_properties.handle_of("CRTC_ID"@) is Some,
        ensures
            item == connector_assignment(self@),
    {
        Assignment {
            object: self.connector_id,
            property: self.connector_properties.get("CRTC_ID").unwrap(),
            value: PropertyValue::Crtc(self.current_crtc.handle),
        }
    }

    /// An assignment to the property `name` of the primary plane.
    fn plane_assignment(&self, name: &str, value: PropertyValue) -> (item: Assignment)
        requires
            self@.plane_properties.handle_of(name@) is Some,
        ensures
            item == plane_assignment(self@, name@, value),
    {
        Assignment {
            object: self.primary_plane_id,
            property: self.plane_properties.get(name).unwrap(),
            value,
        }
    }

    /// Lists the assignments of a mode set with the blob `blob`.
    fn mode_set_assignments(&self, blob: u64, list: &mut Vec<Assignment>)
        requires
            has_mode_set_properties(self@),
        ensures
            final(list)@ == old(list)@ + mode_set_assignments(self@, blob),
    {
        let (w, h) = self.active_mode().size();
        let width: u64 = w as u64;
        let height: u64 = h as u64;
        let crtc = self.current_crtc.handle;
        list.push(self.connector_assignment());
        list.push(
            Assignment {
                object: crtc,
                property: self.crtc_properties.get("MODE_ID").unwrap(),
                value: PropertyValue::Blob(blob),
            },
        );
        list.push(
            Assignment {
                object: crtc,
                property: self.crtc_properties.get("ACTIVE").unwrap(),
                value: PropertyValue::Boolean(true),
            },
        );
        list.push(self.plane_assignment("CRTC_ID", PropertyValue::Crtc(crtc)));
        list.push(self.plane_assignment("SRC_X", PropertyValue::UnsignedRange(0)));
        list.push(self.plane_assignment("SRC_Y", PropertyValue::UnsignedRange(0)));
        list.push(self.plane_assignment("SRC_W", PropertyValue::UnsignedRange(width * 65536)));
        list.push(self.plane_assignment("SRC_H", PropertyValue::UnsignedRange(height * 65536)));
        list.push(self.plane_assignment("CRTC_X", PropertyValue::SignedRange(0)));
        list.push(self.plane_assignment("CRTC_Y", PropertyValue::SignedRange(0)));
        list.push(self.plane_assignment("CRTC_W", PropertyValue::UnsignedRange(width)));
        list.push(self.plane_assignment("CRTC_H", PropertyValue::UnsignedRange(height)));
    }

    /// Lists the assignment that hands the fence over, if the CRTC or the
    /// plane takes one.
    fn fence_assignments(&self, fence_fd: i32, list: &mut Vec<Assignment>)
        ensures
            final(list)@ == old(list)@ + fence_assignments(self@, fence_fd),
    {
        let value = PropertyValue::SignedRange(fence_fd as i64);
        match self.crtc_properties.get("IN_FENCE_FD") {
            Some(property) => {
                list.push(Assignment { object: self.current_crtc.handle, property, value });
            },
            None => {
                match self.plane_properties.get("IN_FENCE_FD") {
                    Some(property) => {
                        list.push(Assignment { object: self.primary_plane_id, property, value });
                    },
                    None => {},
                }
            },
        }
    }

    /// Lists all assignments of the frame `frame`.
    fn frame_assignments(&self, frame: &FrameResources) -> (list: Vec<Assignment>)
        requires
            answers_plan(self@, FrameOutcome::Ready(*frame)),
        ensures
            list@ == frame_assignments(self@, *frame),
    {
        let mut list: Vec<Assignment> = Vec::new();
        if self.needs_mode_set() {
            self.mode_set_assignments(frame.mode_blob.unwrap(), &mut list);
        }
        list.push(
            self.plane_assignment("FB_ID", PropertyValue::Framebuffer(frame.framebuffer)),
        );
        self.fence_assignments(frame.fence_fd, &mut list);
        list
    }

    /// Ends the preparation of a frame, given how the device work went.
    ///
    /// A failure to make the context current or to swap the buffers leaves
    /// the monitor as it was. From the release of the last frame's fence on,
    /// the monitor no longer holds that fence and its sync object. When all
    /// of the work succeeded, the assignments of the frame are added to
    /// `req`, the monitor holds the resources of this frame, waits for its
    /// page flip, and counts the requested mode as set if a mode set was
    /// due. When only the mode blob failed, `req` has already received the
    /// assignment of the connector to the CRTC. The user's context and the
    /// drawn flag stay as they are.
    pub fn swap_buffers(&mut self, outcome: &FrameOutcome, req: &mut AtomicModeReq) -> (done: Result<
        (),
        MonitorSetupError,
    >)
        requires
            answers_plan(old(self)@, *outcome),
        ensures
            reports(*outcome, done),
            final(self)@ == view_after(old(self)@, *outcome),
            final(self).spec_context() == old(self).spec_context(),
            request_entries(*final(req)) == assign_all(
                request_entries(*old(req)),
                assignments_after(old(self)@, *outcome),
            ),
    {
        match outcome {
            FrameOutcome::MakeCurrentFailed => {
                Err(MonitorSetupError::GlesContextError(GlesContextError::MakeCurrentFailed))
            },
            FrameOutcome::SwapFailed(e) => {
                let detail = e.message();
                Err(
                    MonitorSetupError::DrmError(
                        String::from_str("Failed to swap buffers: ").concat(detail.as_str()),
                    ),
                )
            },
            FrameOutcome::FenceFailed(detail) => {
                self.previous_fence_fd = None;
                self.previous_sync = None;
                Err(
                    MonitorSetupError::DrmError(
                        String::from_str("Failed to create fence: ").concat(detail.as_str()),
                    ),
                )
            },
            FrameOutcome::FramebufferFailed(detail) => {
                self.previous_fence_fd = None;
                self.previous_sync = None;
                Err(
                    MonitorSetupError::DrmError(
                        String::from_str("Failed to add framebuffer: ").concat(detail.as_str()),
                    ),
                )
            },
            FrameOutcome::ModeBlobFailed(detail) => {
                self.previous_fence_fd = None;
                self.previous_sync = None;
                let mut list: Vec<Assignment> = Vec::new();
                list.push(self.connector_assignment());
                add_properties(req, &list);
                Err(
                    MonitorSetupError::DrmError(
                        String::from_str("Failed to create mode blob: ").concat(detail.as_str()),
                    ),
                )
            },
            FrameOutcome::Ready(frame) => {
                let list = self.frame_assignments(frame);
                add_properties(req, &list);
                let mode_set = self.needs_mode_set();
                self.previous_bo = Some(frame.buffer);
                self.previous_fence_fd = Some(frame.fence_fd);
                self.previous_sync = Some(frame.sync);
                self.first_frame = false;
                self.can_render = false;
                if mode_set {
                    self.mark_mode_set();
                }
                Ok(())
            },
        }
    }

    /// What is left to release when the monitor is given up: the fence and
    /// the sync object of its last frame.
    pub fn teardown(&self) -> (rest: Teardown)
        ensures
            rest == teardown_of(self@),
    {
        Teardown { close_fence: self.previous_fence_fd, destroy_sync: self.previous_sync }
    }
}

/// One thing that can happen to a monitor between its setup and its end.
pub enum MonitorOp {
    /// `set_mode` with this mode.
    SetMode(Option<Mode>),
    /// `make_current`, with whether the context was made current.
    MakeCurrent(bool),
    /// `swap_buffers` with this outcome of the device work.
    Frame(FrameOutcome),
    /// A page flip of this CRTC was reported.
    PageFlip(u32),
    /// The drawn flag was reset after the frame went into a request.
    ResetDrawn,
    /// `clear_mode_state`.
    ClearModeState,
}

/// The state of a monitor after `op`.
pub open spec fn step(v: MonitorView, op: MonitorOp) -> MonitorView {
    match op {
        MonitorOp::SetMode(mode) => MonitorView { requested_mode: mode, ..v },
        MonitorOp::MakeCurrent(made) => if made {
            MonitorView { was_drawn: true, ..v }
        } else {
            v
        },
        MonitorOp::Frame(outcome) => view_after(v, outcome),
        MonitorOp::PageFlip(crtc) => if crtc == v.crtc.handle {
            MonitorView { can_render: true, ..v }
        } else {
            v
        },
        MonitorOp::ResetDrawn => MonitorView { was_drawn: false, ..v },
        MonitorOp::ClearModeState => MonitorView { current_mode: None, first_frame: true, ..v },
    }
}

/// The state of a monitor after all of `ops`, first to last.
pub open spec fn run(v: MonitorView, ops: Seq<MonitorOp>) -> MonitorView
    decreases ops.len(),
{
    if ops.len() == 0 {
        v
    } else {
        step(run(v, ops.drop_last()), ops.last())
    }
}

/// A monitor for which no mode was ever requested renders in its default
/// mode, whatever else happened to it.
pub proof fn lemma_default_mode_is_active(v: MonitorView, ops: Seq<MonitorOp>)
    requires
        v.requested_mode is None,
        forall|i: int| 0 <= i < ops.len() ==> !(#[trigger] ops[i] matches MonitorOp::SetMode(Some(_))),
    ensures
        run(v, ops).requested_mode is None,
        run(v, ops).default_mode == v.default_mode,
        run(v, ops).active_mode() == v.default_mode,
    decreases ops.len(),
{
    if ops.len() > 0 {
        assert forall|i: int| 0 <= i < ops.drop_last().len() implies !(
        #[trigger] ops.drop_last()[i] matches MonitorOp::SetMode(Some(_))) by {
        }
        lemma_default_mode_is_active(v, ops.drop_last());
    }
}

/// A mode set is due exactly while the requested mode differs from the one
/// in hardware; a frame that performs it makes the two agree, and a frame
/// without one leaves the mode in hardware alone.
pub proof fn lemma_mode_set_settles(v: MonitorView, frame: FrameResources)
    ensures
        v.needs_mode_set() == (v.requested_mode != v.current_mode),
        v.needs_mode_set() ==> committed_view(v, frame).current_mode == v.requested_mode,
        !v.needs_mode_set() ==> committed_view(v, frame).current_mode == v.current_mode,
        !committed_view(v, frame).needs_mode_set(),
{
}

/// After a frame was committed, and until the next frame is prepared, the
/// monitor holds the fence and the sync object of that frame and no others:
/// the plan of the next frame releases exactly them, and a monitor that is
/// torn down before has exactly them left to release.
pub proof fn lemma_frame_resources_held(v: MonitorView, frame: FrameResources, ops: Seq<MonitorOp>)
    requires
        forall|i: int| 0 <= i < ops.len() ==> !(#[trigger] ops[i] is Frame),
    ensures
        run(step(v, MonitorOp::Frame(FrameOutcome::Ready(frame))), ops).previous_fence_fd == Some(
            frame.fence_fd,
        ),
        run(step(v, MonitorOp::Frame(FrameOutcome::Ready(frame))), ops).previous_sync == Some(
            frame.sync,
        ),
        run(step(v, MonitorOp::Frame(FrameOutcome::Ready(frame))), ops).previous_bo == Some(
            frame.buffer,
        ),
        frame_plan(
            run(step(v, MonitorOp::Frame(FrameOutcome::Ready(frame))), ops),
        ).close_fence == Some(frame.fence_fd),
        frame_plan(
            run(step(v, MonitorOp::Frame(FrameOutcome::Ready(frame))), ops),
        ).destroy_sync == Some(frame.sync),
    decreases ops.len(),
{
    if ops.len() > 0 {
        assert forall|i: int| 0 <= i < ops.drop_last().len() implies !(
        #[trigger] ops.drop_last()[i] is Frame) by {
        }
        lemma_frame_resources_held(v, frame, ops.drop_last());
    }
}

/// From its first committed frame on a monitor holds a buffer object,
/// whatever happens to it.
pub proof fn lemma_buffer_kept(v: MonitorView, frame: FrameResources, ops: Seq<MonitorOp>)
    ensures
        run(step(v, MonitorOp::Frame(FrameOutcome::Ready(frame))), ops).previous_bo is Some,
    decreases ops.len(),
{
    if ops.len() > 0 {
        lemma_buffer_kept(v, frame, ops.drop_last());
    }
}

/// Once the fence of a frame was released for the next one, the monitor no
/// longer holds it, however the device work for that next frame ends.
pub proof fn lemma_released_once(v: MonitorView, outcome: FrameOutcome)
    requires
        !(outcome is MakeCurrentFailed),
        !(outcome is SwapFailed),
    ensures
        outcome matches FrameOutcome::Ready(frame) ==> view_after(v, outcome).previous_fence_fd
            == Some(frame.fence_fd) && view_after(v, outcome).previous_sync == Some(frame.sync),
        !(outcome is Ready) ==> view_after(v, outcome).previous_fence_fd is None && view_after(
            v,
            outcome,
        ).previous_sync is None,
{
}

/// A monitor whose frame went into a request cannot be rendered to until a
/// page flip of its CRTC is reported. Its CRTC stays the same throughout.
pub proof fn lemma_waits_for_page_flip(v: MonitorView, frame: FrameResources, ops: Seq<MonitorOp>)
    requires
        forall|i: int|
            0 <= i < ops.len() ==> #[trigger] ops[i] != MonitorOp::PageFlip(v.crtc.handle),
    ensures
        !run(step(v, MonitorOp::Frame(FrameOutcome::Ready(frame))), ops).can_render,
        run(step(v, MonitorOp::Frame(FrameOutcome::Ready(frame))), ops).crtc == v.crtc,
    decreases ops.len(),
{
    if ops.len() > 0 {
        assert forall|i: int| 0 <= i < ops.drop_last().len() implies #[trigger] ops.drop_last()[i]
            != MonitorOp::PageFlip(v.crtc.handle) by {
            assert(ops.drop_last()[i] == ops[i]);
        }
        lemma_waits_for_page_flip(v, frame, ops.drop_last());
        assert(ops.last() == ops[ops.len() - 1]);
    }
}

} // verus!
