use drm::control::atomic::AtomicModeReq;
use drm::control::{connector, crtc, framebuffer, from_u32, plane, property};
use easydrm::atomic::{add_properties, add_property, Assignment, PropertyValue};
use easydrm::gles_context::GlesContextError;
use easydrm::monitor::{
    create_egl_fence, ConnectorInfo, CrtcInfo, FrameOutcome, FramePlan, FrameResources,
    MonitorResourceAllocation, SetupOutcome, Teardown,
};
use easydrm::properties::{PropertyEntry, PropertyTable};
use easydrm::text::decimal;
use easydrm::{Mode, Monitor, MonitorSetupError};

fn mode(width: u16, height: u16, refresh: u32) -> Mode {
    Mode {
        name: [0; 32],
        clock: 148500,
        hdisplay: width,
        hsync_start: width + 88,
        hsync_end: width + 132,
        htotal: width + 280,
        hskew: 0,
        vdisplay: height,
        vsync_start: height + 4,
        vsync_end: height + 9,
        vtotal: height + 45,
        vscan: 0,
        vrefresh: refresh,
        flags: 5,
        mode_type: 0x48,
    }
}

fn table(entries: &[(&str, u32)]) -> PropertyTable {
    PropertyTable::new(
        entries.iter().map(|(name, handle)| PropertyEntry { name: name.to_string(), handle: *handle }).collect(),
    )
}

const PLANE_PROPERTIES: [(&str, u32); 11] = [
    ("type", 100),
    ("FB_ID", 101),
    ("CRTC_ID", 102),
    ("SRC_X", 103),
    ("SRC_Y", 104),
    ("SRC_W", 105),
    ("SRC_H", 106),
    ("CRTC_X", 107),
    ("CRTC_Y", 108),
    ("CRTC_W", 109),
    ("CRTC_H", 110),
];

fn monitor_with(crtc_properties: &[(&str, u32)], plane_properties: &[(&str, u32)]) -> Monitor<()> {
    let info = ConnectorInfo { connected: true, encoders: vec![61], modes: vec![mode(1920, 1080, 60)] };
    let allocation = MonitorResourceAllocation {
        crtc_info: CrtcInfo { handle: 41, position: (0, 0), mode: None, framebuffer: None, gamma_length: 0 },
        primary_plane: 51,
        cursor_plane: None,
    };
    let outcome = SetupOutcome::Ready {
        user_context: (),
        connector_properties: table(&[("CRTC_ID", 200), ("DPMS", 201)]),
        crtc_properties: table(crtc_properties),
        plane_properties: table(plane_properties),
    };
    Monitor::setup(31, &info, allocation, outcome).unwrap()
}

fn monitor() -> Monitor<()> {
    monitor_with(&[("ACTIVE", 300), ("MODE_ID", 301), ("IN_FENCE_FD", 302)], &PLANE_PROPERTIES)
}

fn frame(buffer: u64, fence_fd: i32, mode_blob: Option<u64>) -> FrameResources {
    FrameResources { buffer, sync: 0x7000 + buffer as usize, fence_fd, framebuffer: 70 + buffer as u32, mode_blob }
}

fn con(raw: u32) -> connector::Handle {
    from_u32(raw).unwrap()
}

fn crt(raw: u32) -> crtc::Handle {
    from_u32(raw).unwrap()
}

fn pla(raw: u32) -> plane::Handle {
    from_u32(raw).unwrap()
}

fn fb(raw: u32) -> framebuffer::Handle {
    from_u32(raw).unwrap()
}

fn prop(raw: u32) -> property::Handle {
    from_u32(raw).unwrap()
}

fn text(req: &AtomicModeReq) -> String {
    format!("{:?}", req)
}

fn expect_mode_set(expected: &mut AtomicModeReq, blob: u64, width: u64, height: u64) {
    expected.add_property(con(31), prop(200), property::Value::CRTC(Some(crt(41))));
    expected.add_property(crt(41), prop(301), property::Value::Blob(blob));
    expected.add_property(crt(41), prop(300), property::Value::Boolean(true));
    expected.add_property(pla(51), prop(102), property::Value::CRTC(Some(crt(41))));
    expected.add_property(pla(51), prop(103), property::Value::UnsignedRange(0));
    expected.add_property(pla(51), prop(104), property::Value::UnsignedRange(0));
    expected.add_property(pla(51), prop(105), property::Value::UnsignedRange(width << 16));
    expected.add_property(pla(51), prop(106), property::Value::UnsignedRange(height << 16));
    expected.add_property(pla(51), prop(107), property::Value::SignedRange(0));
    expected.add_property(pla(51), prop(108), property::Value::SignedRange(0));
    expected.add_property(pla(51), prop(109), property::Value::UnsignedRange(width));
    expected.add_property(pla(51), prop(110), property::Value::UnsignedRange(height));
}

#[test]
fn fresh_monitor_plans_no_mode_set() {
    let m = monitor();
    assert!(!m.needs_mode_set());
    assert_eq!(
        m.plan_frame(),
        FramePlan { close_fence: None, destroy_sync: None, mode_blob: None, framebuffer_depth: 24, framebuffer_bpp: 32 }
    );
}

#[test]
fn frame_without_mode_set_assigns_framebuffer_and_fence() {
    let mut m = monitor();
    m.make_current(true).unwrap();
    let mut req = AtomicModeReq::new();
    assert_eq!(m.swap_buffers(&FrameOutcome::Ready(frame(1, 9, None)), &mut req), Ok(()));
    let mut expected = AtomicModeReq::new();
    expected.add_property(pla(51), prop(101), property::Value::Framebuffer(Some(fb(71))));
    expected.add_property(crt(41), prop(302), property::Value::SignedRange(9));
    assert_eq!(text(&req), text(&expected));
    assert_eq!(m.current_mode(), None);
    assert!(!m.can_render());
    assert!(!m.first_frame());
    assert!(m.was_drawn());
    assert_eq!(m.previous_bo(), Some(1));
    assert_eq!(m.previous_fence_fd(), Some(9));
    assert_eq!(m.previous_sync(), Some(0x7001));
}

#[test]
fn first_frame_with_requested_mode_sets_the_mode() {
    let mut m = monitor();
    m.set_mode(Some(mode(1920, 1080, 60)));
    assert!(m.needs_mode_set());
    assert!(m.has_frame_properties());
    assert_eq!(m.plan_frame().mode_blob, Some(mode(1920, 1080, 60)));
    let mut req = AtomicModeReq::new();
    assert_eq!(m.swap_buffers(&FrameOutcome::Ready(frame(1, 9, Some(555))), &mut req), Ok(()));
    let mut expected = AtomicModeReq::new();
    expect_mode_set(&mut expected, 555, 1920, 1080);
    expected.add_property(pla(51), prop(101), property::Value::Framebuffer(Some(fb(71))));
    expected.add_property(crt(41), prop(302), property::Value::SignedRange(9));
    assert_eq!(text(&req), text(&expected));
    assert!(text(&req).contains(&(1920u64 << 16).to_string()));
    assert!(text(&req).contains(&(1080u64 << 16).to_string()));
    assert_eq!(m.current_mode(), Some(&mode(1920, 1080, 60)));
    assert_eq!(m.current_mode(), Some(m.default_mode()));
    assert!(!m.needs_mode_set());
    assert!(!m.can_render());
}

#[test]
fn steady_state_frame_releases_the_last_fence() {
    let mut m = monitor();
    m.set_mode(Some(mode(1920, 1080, 60)));
    let mut first = AtomicModeReq::new();
    m.swap_buffers(&FrameOutcome::Ready(frame(1, 9, Some(555))), &mut first).unwrap();
    m.page_flipped(42);
    assert!(!m.can_render());
    m.page_flipped(41);
    assert!(m.can_render());
    let plan = m.plan_frame();
    assert_eq!(plan.close_fence, Some(9));
    assert_eq!(plan.destroy_sync, Some(0x7001));
    assert_eq!(plan.mode_blob, None);
    let mut second = AtomicModeReq::new();
    m.swap_buffers(&FrameOutcome::Ready(frame(2, 12, None)), &mut second).unwrap();
    let mut expected = AtomicModeReq::new();
    expected.add_property(pla(51), prop(101), property::Value::Framebuffer(Some(fb(72))));
    expected.add_property(crt(41), prop(302), property::Value::SignedRange(12));
    assert_eq!(text(&second), text(&expected));
    assert_eq!(m.previous_fence_fd(), Some(12));
    assert_eq!(m.previous_sync(), Some(0x7002));
    assert_eq!(m.previous_bo(), Some(2));
    assert_eq!(m.plan_frame().close_fence, Some(12));
}

#[test]
fn mode_change_sets_the_new_mode() {
    let mut m = monitor();
    m.set_mode(Some(mode(1920, 1080, 60)));
    let mut first = AtomicModeReq::new();
    m.swap_buffers(&FrameOutcome::Ready(frame(1, 9, Some(555))), &mut first).unwrap();
    m.set_mode(Some(mode(1280, 720, 60)));
    assert!(m.needs_mode_set());
    assert_eq!(m.plan_frame().mode_blob, Some(mode(1280, 720, 60)));
    let mut req = AtomicModeReq::new();
    m.swap_buffers(&FrameOutcome::Ready(frame(2, 12, Some(556))), &mut req).unwrap();
    let mut expected = AtomicModeReq::new();
    expect_mode_set(&mut expected, 556, 1280, 720);
    expected.add_property(pla(51), prop(101), property::Value::Framebuffer(Some(fb(72))));
    expected.add_property(crt(41), prop(302), property::Value::SignedRange(12));
    assert_eq!(text(&req), text(&expected));
    assert_eq!(m.current_mode(), Some(&mode(1280, 720, 60)));
    assert!(!m.needs_mode_set());
}

#[test]
fn going_back_to_the_default_sets_the_default_mode() {
    let mut m = monitor();
    m.set_mode(Some(mode(1280, 720, 60)));
    let mut first = AtomicModeReq::new();
    m.swap_buffers(&FrameOutcome::Ready(frame(1, 9, Some(555))), &mut first).unwrap();
    m.set_mode(None);
    assert_eq!(m.plan_frame().mode_blob, Some(mode(1920, 1080, 60)));
    let mut req = AtomicModeReq::new();
    m.swap_buffers(&FrameOutcome::Ready(frame(2, 12, Some(557))), &mut req).unwrap();
    let mut expected = AtomicModeReq::new();
    expect_mode_set(&mut expected, 557, 1920, 1080);
    expected.add_property(pla(51), prop(101), property::Value::Framebuffer(Some(fb(72))));
    expected.add_property(crt(41), prop(302), property::Value::SignedRange(12));
    assert_eq!(text(&req), text(&expected));
    assert_eq!(m.current_mode(), None);
    assert!(!m.needs_mode_set());
}

#[test]
fn fence_goes_to_the_plane_if_the_crtc_takes_none() {
    let mut plane_properties = PLANE_PROPERTIES.to_vec();
    plane_properties.push(("IN_FENCE_FD", 111));
    let mut m = monitor_with(&[("ACTIVE", 300), ("MODE_ID", 301)], &plane_properties);
    let mut req = AtomicModeReq::new();
    m.swap_buffers(&FrameOutcome::Ready(frame(1, 9, None)), &mut req).unwrap();
    let mut expected = AtomicModeReq::new();
    expected.add_property(pla(51), prop(101), property::Value::Framebuffer(Some(fb(71))));
    expected.add_property(pla(51), prop(111), property::Value::SignedRange(9));
    assert_eq!(text(&req), text(&expected));
}

#[test]
fn crtc_fence_property_is_preferred() {
    let mut plane_properties = PLANE_PROPERTIES.to_vec();
    plane_properties.push(("IN_FENCE_FD", 111));
    let mut m = monitor_with(&[("IN_FENCE_FD", 302)], &plane_properties);
    let mut req = AtomicModeReq::new();
    m.swap_buffers(&FrameOutcome::Ready(frame(1, 9, None)), &mut req).unwrap();
    let mut expected = AtomicModeReq::new();
    expected.add_property(pla(51), prop(101), property::Value::Framebuffer(Some(fb(71))));
    expected.add_property(crt(41), prop(302), property::Value::SignedRange(9));
    assert_eq!(text(&req), text(&expected));
}

#[test]
fn fence_is_left_out_if_nothing_takes_it() {
    let mut m = monitor_with(&[("ACTIVE", 300), ("MODE_ID", 301)], &PLANE_PROPERTIES);
    let mut req = AtomicModeReq::new();
    m.swap_buffers(&FrameOutcome::Ready(frame(1, 9, None)), &mut req).unwrap();
    let mut expected = AtomicModeReq::new();
    expected.add_property(pla(51), prop(101), property::Value::Framebuffer(Some(fb(71))));
    assert_eq!(text(&req), text(&expected));
}

#[test]
fn frames_of_two_monitors_share_a_request() {
    let mut m = monitor();
    let mut req = AtomicModeReq::new();
    req.add_property(pla(59), prop(101), property::Value::Framebuffer(Some(fb(90))));
    m.swap_buffers(&FrameOutcome::Ready(frame(1, 9, None)), &mut req).unwrap();
    let mut expected = AtomicModeReq::new();
    expected.add_property(pla(59), prop(101), property::Value::Framebuffer(Some(fb(90))));
    expected.add_property(pla(51), prop(101), property::Value::Framebuffer(Some(fb(71))));
    expected.add_property(crt(41), prop(302), property::Value::SignedRange(9));
    assert_eq!(text(&req), text(&expected));
}

#[test]
fn early_failures_leave_the_monitor_alone() {
    let mut m = monitor();
    let mut first = AtomicModeReq::new();
    m.swap_buffers(&FrameOutcome::Ready(frame(1, 9, None)), &mut first).unwrap();
    let mut req = AtomicModeReq::new();
    assert_eq!(
        m.swap_buffers(&FrameOutcome::MakeCurrentFailed, &mut req),
        Err(MonitorSetupError::GlesContextError(GlesContextError::MakeCurrentFailed))
    );
    assert_eq!(
        m.swap_buffers(&FrameOutcome::SwapFailed(GlesContextError::GbmSurfaceCreationFailed), &mut req),
        Err(MonitorSetupError::DrmError("Failed to swap buffers: Failed to create GBM surface".to_string()))
    );
    assert_eq!(m.previous_fence_fd(), Some(9));
    assert_eq!(m.previous_sync(), Some(0x7001));
    assert_eq!(m.previous_bo(), Some(1));
    assert_eq!(text(&req), text(&AtomicModeReq::new()));
}

#[test]
fn later_failures_come_after_the_release() {
    let cases = [
        (FrameOutcome::FenceFailed("Failed to create EGL sync".to_string()), "Failed to create fence: Failed to create EGL sync"),
        (FrameOutcome::FramebufferFailed("Invalid argument".to_string()), "Failed to add framebuffer: Invalid argument"),
    ];
    for (outcome, message) in cases {
        let mut m = monitor();
        let mut first = AtomicModeReq::new();
        m.swap_buffers(&FrameOutcome::Ready(frame(1, 9, None)), &mut first).unwrap();
        m.page_flipped(41);
        let mut req = AtomicModeReq::new();
        assert_eq!(m.swap_buffers(&outcome, &mut req), Err(MonitorSetupError::DrmError(message.to_string())));
        assert_eq!(m.previous_fence_fd(), None);
        assert_eq!(m.previous_sync(), None);
        assert_eq!(m.previous_bo(), Some(1));
        assert!(m.can_render());
        assert_eq!(text(&req), text(&AtomicModeReq::new()));
    }
}

#[test]
fn mode_blob_failure_comes_after_the_connector_assignment() {
    let mut m = monitor();
    m.set_mode(Some(mode(1280, 720, 60)));
    let mut req = AtomicModeReq::new();
    assert_eq!(
        m.swap_buffers(&FrameOutcome::ModeBlobFailed("No space left".to_string()), &mut req),
        Err(MonitorSetupError::DrmError("Failed to create mode blob: No space left".to_string()))
    );
    let mut expected = AtomicModeReq::new();
    expected.add_property(con(31), prop(200), property::Value::CRTC(Some(crt(41))));
    assert_eq!(text(&req), text(&expected));
    assert_eq!(m.current_mode(), None);
    assert!(m.needs_mode_set());
}

#[test]
fn missing_properties_are_noticed() {
    let mut m = monitor_with(&[("ACTIVE", 300)], &PLANE_PROPERTIES);
    assert!(m.has_frame_properties());
    m.set_mode(Some(mode(1280, 720, 60)));
    assert!(!m.has_frame_properties());
    let m = monitor_with(&[("ACTIVE", 300), ("MODE_ID", 301)], &[("CRTC_ID", 102)]);
    assert!(!m.has_frame_properties());
}

#[test]
fn fences_are_judged() {
    assert_eq!(create_egl_fence(0x7001, 9), Ok((9, 0x7001)));
    assert_eq!(create_egl_fence(0x7001, 0), Ok((0, 0x7001)));
    assert_eq!(create_egl_fence(0, 9), Err("Failed to create EGL sync".to_string()));
    assert_eq!(create_egl_fence(0, -1), Err("Failed to create EGL sync".to_string()));
    assert_eq!(create_egl_fence(0x7001, -1), Err("Failed to duplicate fence FD: fence_fd=-1".to_string()));
    assert_eq!(create_egl_fence(0x7001, i32::MIN), Err("Failed to duplicate fence FD: fence_fd=-2147483648".to_string()));
}

#[test]
fn teardown_hands_out_what_is_left() {
    let m = monitor();
    assert_eq!(m.teardown(), Teardown { close_fence: None, destroy_sync: None });
    let mut m = monitor();
    let mut req = AtomicModeReq::new();
    m.swap_buffers(&FrameOutcome::Ready(frame(1, 9, None)), &mut req).unwrap();
    assert_eq!(m.teardown(), Teardown { close_fence: Some(9), destroy_sync: Some(0x7001) });
}

#[test]
fn values_are_encoded_as_the_device_expects() {
    let mut req = AtomicModeReq::new();
    add_property(&mut req, 7, 1, PropertyValue::Boolean(true));
    add_property(&mut req, 7, 2, PropertyValue::Boolean(false));
    add_property(&mut req, 7, 3, PropertyValue::SignedRange(-1));
    add_property(&mut req, 7, 4, PropertyValue::SignedRange(5));
    add_property(&mut req, 7, 5, PropertyValue::UnsignedRange(u64::MAX));
    add_property(&mut req, 7, 6, PropertyValue::Blob(77));
    add_property(&mut req, 7, 8, PropertyValue::Crtc(41));
    add_property(&mut req, 7, 9, PropertyValue::Framebuffer(71));
    add_property(&mut req, 7, 10, PropertyValue::Crtc(0));
    let mut expected = AtomicModeReq::new();
    let object = std::num::NonZeroU32::new(7).unwrap();
    for (property, raw) in [(1, 1u64), (2, 0), (3, u64::MAX), (4, 5), (5, u64::MAX), (6, 77), (8, 41), (9, 71), (10, 0)] {
        expected.add_raw_property(object, prop(property), raw);
    }
    assert_eq!(text(&req), text(&expected));
}

#[test]
fn a_later_assignment_replaces_an_earlier_one() {
    let mut req = AtomicModeReq::new();
    add_property(&mut req, 7, 1, PropertyValue::UnsignedRange(1));
    add_property(&mut req, 8, 1, PropertyValue::UnsignedRange(2));
    add_property(&mut req, 7, 1, PropertyValue::UnsignedRange(3));
    let mut expected = AtomicModeReq::new();
    expected.add_raw_property(std::num::NonZeroU32::new(7).unwrap(), prop(1), 3);
    expected.add_raw_property(std::num::NonZeroU32::new(8).unwrap(), prop(1), 2);
    assert_eq!(text(&req), text(&expected));
}

#[test]
fn unaddressed_assignments_are_left_out() {
    let mut req = AtomicModeReq::new();
    let list = vec![
        Assignment { object: 0, property: 1, value: PropertyValue::UnsignedRange(1) },
        Assignment { object: 7, property: 0, value: PropertyValue::UnsignedRange(2) },
        Assignment { object: 7, property: 1, value: PropertyValue::UnsignedRange(3) },
    ];
    add_properties(&mut req, &list);
    let mut expected = AtomicModeReq::new();
    expected.add_raw_property(std::num::NonZeroU32::new(7).unwrap(), prop(1), 3);
    assert_eq!(text(&req), text(&expected));
}

#[test]
fn numbers_are_written_in_decimal() {
    assert_eq!(decimal(0), "0");
    assert_eq!(decimal(7), "7");
    assert_eq!(decimal(10), "10");
    assert_eq!(decimal(-1), "-1");
    assert_eq!(decimal(1234567890), "1234567890");
    assert_eq!(decimal(i32::MAX), i32::MAX.to_string());
    assert_eq!(decimal(i32::MIN), i32::MIN.to_string());
    for n in [-1000, -101, -99, -10, -9, 9, 99, 100, 101, 65536] {
        assert_eq!(decimal(n), n.to_string());
    }
}

#[test]
fn outcomes_answer_the_plan() {
    let mut m = monitor();
    assert!(m.answers_plan(&FrameOutcome::Ready(frame(1, 9, None))));
    assert!(m.answers_plan(&FrameOutcome::Ready(frame(1, 9, Some(5)))));
    assert!(m.answers_plan(&FrameOutcome::MakeCurrentFailed));
    assert!(m.answers_plan(&FrameOutcome::FramebufferFailed("x".to_string())));
    assert!(!m.answers_plan(&FrameOutcome::ModeBlobFailed("x".to_string())));
    m.set_mode(Some(mode(1280, 720, 60)));
    assert!(!m.answers_plan(&FrameOutcome::Ready(frame(1, 9, None))));
    assert!(m.answers_plan(&FrameOutcome::Ready(frame(1, 9, Some(5)))));
    assert!(m.answers_plan(&FrameOutcome::ModeBlobFailed("x".to_string())));
    let mut bare = monitor_with(&[("ACTIVE", 300)], &[("CRTC_ID", 102)]);
    assert!(!bare.answers_plan(&FrameOutcome::Ready(frame(1, 9, None))));
    bare.set_mode(Some(mode(1280, 720, 60)));
    assert!(bare.answers_plan(&FrameOutcome::ModeBlobFailed("x".to_string())));
    assert!(!bare.answers_plan(&FrameOutcome::Ready(frame(1, 9, Some(5)))));
}
