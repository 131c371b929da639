use drm::control::atomic::AtomicModeReq;
use easydrm::gles_context::GlesContextError;
use easydrm::monitor::{
    ConnectorInfo, CrtcInfo, FrameOutcome, FrameResources, MonitorResourceAllocation,
    PropertyObject, SetupOutcome,
};
use easydrm::properties::{PropertyEntry, PropertyTable};
use easydrm::{Mode, Monitor, MonitorSetupError};

fn mode(width: u16, height: u16, refresh: u32) -> Mode {
    Mode {
        name: [0; 32],
        clock: 148500,
        hdisplay: width,
        hsync_start: width + 88,
        hsync_end: width + 132,
        htotal: width + 280,
        hskew: 0,
        vdisplay: height,
        vsync_start: height + 4,
        vsync_end: height + 9,
        vtotal: height + 45,
        vscan: 0,
        vrefresh: refresh,
        flags: 5,
        mode_type: 0x48,
    }
}

fn crtc(handle: u32) -> CrtcInfo {
    CrtcInfo { handle, position: (0, 0), mode: None, framebuffer: None, gamma_length: 256 }
}

fn allocation() -> MonitorResourceAllocation {
    MonitorResourceAllocation { crtc_info: crtc(41), primary_plane: 51, cursor_plane: Some(52) }
}

fn table(entries: &[(&str, u32)]) -> PropertyTable {
    PropertyTable::new(
        entries.iter().map(|(name, handle)| PropertyEntry { name: name.to_string(), handle: *handle }).collect(),
    )
}

fn ready(context: u8) -> SetupOutcome<u8> {
    SetupOutcome::Ready {
        user_context: context,
        connector_properties: table(&[("CRTC_ID", 1)]),
        crtc_properties: table(&[("MODE_ID", 2), ("ACTIVE", 3)]),
        plane_properties: table(&[
            ("FB_ID", 4),
            ("CRTC_ID", 5),
            ("SRC_X", 6),
            ("SRC_Y", 7),
            ("SRC_W", 8),
            ("SRC_H", 9),
            ("CRTC_X", 10),
            ("CRTC_Y", 11),
            ("CRTC_W", 12),
            ("CRTC_H", 13),
        ]),
    }
}

fn commit(m: &mut Monitor<u8>, blob: Option<u64>) {
    let frame = FrameResources { buffer: 1, sync: 0x7001, fence_fd: 9, framebuffer: 71, mode_blob: blob };
    let mut req = AtomicModeReq::new();
    m.swap_buffers(&FrameOutcome::Ready(frame), &mut req).unwrap();
}

fn connected() -> ConnectorInfo {
    ConnectorInfo {
        connected: true,
        encoders: vec![61],
        modes: vec![mode(1920, 1080, 60), mode(1280, 720, 60)],
    }
}

fn monitor() -> Monitor<u8> {
    Monitor::setup(31, &connected(), allocation(), ready(9)).unwrap()
}

#[test]
fn setup_gives_a_fresh_monitor() {
    let m = monitor();
    assert_eq!(m.connector_id(), 31);
    assert_eq!(*m.crtc(), crtc(41));
    assert_eq!(m.primary_plane(), 51);
    assert_eq!(m.cursor_plane(), Some(52));
    assert_eq!(*m.default_mode(), mode(1920, 1080, 60));
    assert_eq!(m.requested_mode(), None);
    assert_eq!(m.current_mode(), None);
    assert_eq!(*m.active_mode(), mode(1920, 1080, 60));
    assert_eq!(m.size(), (1920, 1080));
    assert!(m.can_render());
    assert!(!m.was_drawn());
    assert!(m.first_frame());
    assert_eq!(m.previous_bo(), None);
    assert_eq!(m.previous_fence_fd(), None);
    assert_eq!(m.previous_sync(), None);
    assert_eq!(*m.context(), 9);
}

#[test]
fn setup_rejects_a_connector_without_display() {
    let info = ConnectorInfo { connected: false, encoders: vec![], modes: vec![mode(800, 600, 60)] };
    assert_eq!(Monitor::setup(31, &info, allocation(), ready(0)).err(), Some(MonitorSetupError::NotConnected));
    assert_eq!(Monitor::<u8>::preferred_mode(&info), Err(MonitorSetupError::NotConnected));
}

#[test]
fn setup_rejects_a_display_without_modes() {
    let info = ConnectorInfo { connected: true, encoders: vec![], modes: vec![] };
    assert_eq!(Monitor::setup(31, &info, allocation(), ready(0)).err(), Some(MonitorSetupError::NoModesFound));
    assert_eq!(Monitor::<u8>::preferred_mode(&info), Err(MonitorSetupError::NoModesFound));
}

#[test]
fn the_connector_is_judged_before_the_device_work() {
    let info = ConnectorInfo { connected: false, encoders: vec![], modes: vec![] };
    let outcome: SetupOutcome<u8> = SetupOutcome::ContextFailed(GlesContextError::NoConfigFound);
    assert_eq!(Monitor::setup(31, &info, allocation(), outcome).err(), Some(MonitorSetupError::NotConnected));
}

#[test]
fn preferred_mode_is_the_first() {
    assert_eq!(Monitor::<u8>::preferred_mode(&connected()), Ok(mode(1920, 1080, 60)));
}

#[test]
fn setup_passes_device_failures_on() {
    let outcome: SetupOutcome<u8> = SetupOutcome::ContextFailed(GlesContextError::NoConfigFound);
    assert_eq!(
        Monitor::setup(31, &connected(), allocation(), outcome).err(),
        Some(MonitorSetupError::GlesContextError(GlesContextError::NoConfigFound))
    );
    let outcome: SetupOutcome<u8> = SetupOutcome::PropertyQueryFailed("Permission denied".to_string());
    assert_eq!(
        Monitor::setup(31, &connected(), allocation(), outcome).err(),
        Some(MonitorSetupError::IOError("Permission denied".to_string()))
    );
    let cases = [
        (PropertyObject::Connector, "Failed to get connector properties: gone"),
        (PropertyObject::Crtc, "Failed to get CRTC properties: gone"),
        (PropertyObject::Plane, "Failed to get plane properties: gone"),
    ];
    for (object, text) in cases {
        let outcome: SetupOutcome<u8> = SetupOutcome::PropertyNamesFailed(object, "gone".to_string());
        assert_eq!(
            Monitor::setup(31, &connected(), allocation(), outcome).err(),
            Some(MonitorSetupError::DrmError(text.to_string()))
        );
    }
}

#[test]
fn active_mode_is_default_until_a_mode_is_requested() {
    let mut m = monitor();
    m.make_current(true).unwrap();
    m.set_mode(None);
    commit(&mut m, None);
    m.page_flipped(41);
    m.clear_mode_state();
    assert_eq!(*m.active_mode(), *m.default_mode());
    m.set_mode(Some(mode(1280, 720, 60)));
    assert_eq!(*m.active_mode(), mode(1280, 720, 60));
    assert_eq!(m.requested_mode(), Some(&mode(1280, 720, 60)));
    assert_eq!(m.size(), (1280, 720));
    assert_eq!(*m.default_mode(), mode(1920, 1080, 60));
    m.set_mode(None);
    assert_eq!(*m.active_mode(), mode(1920, 1080, 60));
}

#[test]
fn mode_set_is_due_while_requested_differs_from_current() {
    let mut m = monitor();
    assert!(!m.needs_mode_set());
    m.set_mode(Some(mode(1280, 720, 60)));
    assert!(m.needs_mode_set());
    commit(&mut m, Some(500));
    assert!(!m.needs_mode_set());
    assert_eq!(m.current_mode(), Some(&mode(1280, 720, 60)));
    m.set_mode(Some(mode(1280, 720, 50)));
    assert!(m.needs_mode_set());
    m.set_mode(Some(mode(1280, 720, 60)));
    assert!(!m.needs_mode_set());
    m.set_mode(None);
    assert!(m.needs_mode_set());
    commit(&mut m, Some(501));
    assert_eq!(m.current_mode(), None);
    assert!(!m.needs_mode_set());
}

#[test]
fn modes_differ_by_any_field() {
    let a = mode(1280, 720, 60);
    let mut b = a;
    assert!(a.equals(&b));
    b.name[31] = 1;
    assert!(!a.equals(&b));
    let mut c = a;
    c.flags = 6;
    assert!(!a.equals(&c));
    let mut d = a;
    d.clock = 1;
    assert!(!a.equals(&d));
    assert_eq!(a.size(), (1280, 720));
    assert_eq!(a.vrefresh(), 60);
    assert!(easydrm::mode::same_mode(&Some(a), &Some(a)));
    assert!(easydrm::mode::same_mode(&None, &None));
    assert!(!easydrm::mode::same_mode(&Some(a), &None));
    assert!(!easydrm::mode::same_mode(&Some(a), &Some(c)));
}

#[test]
fn clearing_the_mode_state_asks_for_a_new_mode_set() {
    let mut m = monitor();
    m.set_mode(Some(mode(1280, 720, 60)));
    commit(&mut m, Some(500));
    assert!(!m.first_frame());
    m.clear_mode_state();
    assert_eq!(m.current_mode(), None);
    assert!(m.first_frame());
    assert!(m.needs_mode_set());
}

#[test]
fn make_current_marks_the_monitor_drawn() {
    let mut m = monitor();
    assert_eq!(m.make_current(false), Err(GlesContextError::MakeCurrentFailed));
    assert!(!m.was_drawn());
    assert_eq!(m.make_current(true), Ok(()));
    assert!(m.was_drawn());
    assert_eq!(m.make_current(false), Err(GlesContextError::MakeCurrentFailed));
    assert!(m.was_drawn());
}

#[test]
fn context_can_be_changed_in_place() {
    let mut m = monitor();
    *m.context_mut() += 1;
    assert_eq!(*m.context(), 10);
    assert_eq!(m.connector_id(), 31);
}

#[test]
fn setup_error_texts() {
    assert_eq!(MonitorSetupError::IOError("x".to_string()).message(), "IO Error: x");
    assert_eq!(MonitorSetupError::NotConnected.message(), "monitor is not connected");
    assert_eq!(MonitorSetupError::NoCRTCFound.message(), "monitor doesn't have any crtcs available");
    assert_eq!(MonitorSetupError::NoModesFound.message(), "monitor doesn't have any display modes");
    assert_eq!(MonitorSetupError::NoPrimaryPlaneFound.message(), "no primary plane found for this monitor");
    assert_eq!(
        MonitorSetupError::GlesContextError(GlesContextError::NoConfigFound).message(),
        "failed to create OpenGL ES context: No suitable EGL config found"
    );
    assert_eq!(MonitorSetupError::DrmError("y".to_string()).message(), "DRM error: y");
}

#[test]
fn property_tables_find_the_last_entry_of_a_name() {
    let t = table(&[("FB_ID", 4), ("CRTC_ID", 5), ("FB_ID", 6)]);
    assert_eq!(t.len(), 3);
    assert_eq!(t.get("FB_ID"), Some(6));
    assert_eq!(t.get("CRTC_ID"), Some(5));
    assert_eq!(t.get("fb_id"), None);
    assert_eq!(t.get(""), None);
    assert!(t.contains("CRTC_ID"));
    assert!(!t.contains("SRC_X"));
    assert_eq!(table(&[]).get("FB_ID"), None);
}

#[test]
fn monitors_are_identified_by_their_connector() {
    let a = monitor();
    let mut b = Monitor::setup(
        31,
        &connected(),
        MonitorResourceAllocation { crtc_info: crtc(42), primary_plane: 53, cursor_plane: None },
        ready(1),
    )
    .unwrap();
    b.set_mode(Some(mode(800, 600, 60)));
    let c = Monitor::setup(32, &connected(), allocation(), ready(9)).unwrap();
    assert!(a == b);
    assert!(b == a);
    assert!(a != c);
}
