use easydrm::allocation::{
    list_contains, ConnectorReport, DeviceSnapshot, EncoderInfo, PlaneInfo, PlaneProperty,
    PlaneType, ResourceUsage,
};
use easydrm::monitor::{ConnectorInfo, CrtcInfo, MonitorResourceAllocation};
use easydrm::{Mode, MonitorSetupError};
use std::collections::HashSet;

fn mode(width: u16, height: u16, refresh: u32) -> Mode {
    Mode {
        name: [0; 32],
        clock: 148500,
        hdisplay: width,
        hsync_start: width + 88,
        hsync_end: width + 132,
        htotal: width + 280,
        hskew: 0,
        vdisplay: height,
        vsync_start: height + 4,
        vsync_end: height + 9,
        vtotal: height + 45,
        vscan: 0,
        vrefresh: refresh,
        flags: 5,
        mode_type: 0x48,
    }
}

fn crtc(handle: u32) -> CrtcInfo {
    CrtcInfo { handle, position: (0, 0), mode: None, framebuffer: None, gamma_length: 256 }
}

fn connector(handle: u32, connected: bool, encoders: &[u32]) -> ConnectorReport {
    ConnectorReport {
        handle,
        info: Ok(ConnectorInfo { connected, encoders: encoders.to_vec(), modes: vec![mode(1920, 1080, 60)] }),
    }
}

fn encoder(handle: u32, crtcs: &[u32]) -> EncoderInfo {
    EncoderInfo { handle, compatible_crtcs: crtcs.to_vec() }
}

fn plane(handle: u32, crtcs: &[u32], kind: u64) -> PlaneInfo {
    PlaneInfo {
        handle,
        compatible_crtcs: crtcs.to_vec(),
        properties: Ok(vec![
            PlaneProperty { name: Some("rotation".to_string()), value: 1 },
            PlaneProperty { name: Some("type".to_string()), value: kind },
        ]),
    }
}

fn device() -> DeviceSnapshot {
    DeviceSnapshot {
        connectors: vec![connector(31, true, &[61, 62]), connector(32, true, &[62]), connector(33, false, &[61])],
        encoders: vec![encoder(61, &[41, 42]), encoder(62, &[42, 43])],
        crtcs: vec![crtc(41), crtc(42), crtc(43)],
        planes: vec![
            plane(50, &[41, 42, 43], 0),
            plane(51, &[41], 1),
            plane(52, &[42, 43], 1),
            plane(53, &[41, 42, 43], 2),
            plane(54, &[42], 2),
        ],
    }
}

fn usage(crtcs: &[u32], primary: &[u32], cursor: &[u32]) -> ResourceUsage {
    ResourceUsage {
        crtcs: crtcs.iter().copied().collect::<HashSet<u32>>(),
        primary_planes: primary.iter().copied().collect::<HashSet<u32>>(),
        cursor_planes: cursor.iter().copied().collect::<HashSet<u32>>(),
    }
}

fn info_of(report: &ConnectorReport) -> &ConnectorInfo {
    report.info.as_ref().unwrap()
}

#[test]
fn first_connector_gets_the_first_resources() {
    let d = device();
    assert_eq!(
        d.allocate_monitor_resources(&d.connectors[0], &usage(&[], &[], &[])),
        Ok(MonitorResourceAllocation { crtc_info: crtc(41), primary_plane: 51, cursor_plane: Some(53) })
    );
}

#[test]
fn used_resources_are_passed_over() {
    let d = device();
    assert_eq!(
        d.allocate_monitor_resources(&d.connectors[0], &usage(&[41], &[51], &[53])),
        Ok(MonitorResourceAllocation { crtc_info: crtc(42), primary_plane: 52, cursor_plane: Some(54) })
    );
    assert_eq!(
        d.allocate_monitor_resources(&d.connectors[1], &usage(&[42], &[51], &[53, 54])),
        Ok(MonitorResourceAllocation { crtc_info: crtc(43), primary_plane: 52, cursor_plane: None })
    );
    assert_eq!(
        d.allocate_monitor_resources(&d.connectors[1], &usage(&[42], &[52], &[53, 54])),
        Err(MonitorSetupError::NoPrimaryPlaneFound)
    );
}

#[test]
fn a_missing_cursor_plane_is_allowed() {
    let d = device();
    assert_eq!(
        d.allocate_monitor_resources(&d.connectors[1], &usage(&[42], &[], &[53])),
        Ok(MonitorResourceAllocation { crtc_info: crtc(43), primary_plane: 52, cursor_plane: None })
    );
}

#[test]
fn a_connector_without_display_gets_nothing() {
    let d = device();
    assert_eq!(
        d.allocate_monitor_resources(&d.connectors[2], &usage(&[], &[], &[])),
        Err(MonitorSetupError::NotConnected)
    );
}

#[test]
fn a_connector_that_cannot_be_queried_gives_its_error() {
    let d = device();
    let report = ConnectorReport { handle: 34, info: Err("No such device".to_string()) };
    assert_eq!(
        d.allocate_monitor_resources(&report, &usage(&[], &[], &[])),
        Err(MonitorSetupError::IOError("No such device".to_string()))
    );
}

#[test]
fn no_free_crtc_is_an_error() {
    let d = device();
    assert_eq!(
        d.allocate_monitor_resources(&d.connectors[1], &usage(&[42, 43], &[], &[])),
        Err(MonitorSetupError::NoCRTCFound)
    );
    assert_eq!(
        d.allocate_monitor_resources(&connector(35, true, &[]), &usage(&[], &[], &[])),
        Err(MonitorSetupError::NoCRTCFound)
    );
    assert_eq!(
        d.allocate_monitor_resources(&connector(35, true, &[69]), &usage(&[], &[], &[])),
        Err(MonitorSetupError::NoCRTCFound)
    );
}

#[test]
fn a_crtc_that_cannot_be_queried_is_passed_over() {
    let mut d = device();
    d.crtcs = vec![crtc(42), crtc(43)];
    assert_eq!(
        d.allocate_monitor_resources(&d.connectors[0], &usage(&[], &[], &[])),
        Ok(MonitorResourceAllocation { crtc_info: crtc(42), primary_plane: 52, cursor_plane: Some(53) })
    );
    d.crtcs = vec![];
    assert_eq!(
        d.allocate_monitor_resources(&d.connectors[0], &usage(&[], &[], &[])),
        Err(MonitorSetupError::NoCRTCFound)
    );
}

#[test]
fn no_primary_plane_is_an_error() {
    let d = device();
    assert_eq!(
        d.allocate_monitor_resources(&d.connectors[0], &usage(&[], &[51], &[])),
        Err(MonitorSetupError::NoPrimaryPlaneFound)
    );
}

#[test]
fn candidates_keep_their_first_place() {
    let d = device();
    let none = HashSet::new();
    assert_eq!(d.crtc_candidates_for_connector(info_of(&d.connectors[0]), &none), vec![41, 42, 43]);
    assert_eq!(d.crtc_candidates_for_connector(info_of(&d.connectors[1]), &none), vec![42, 43]);
    let used: HashSet<u32> = [42].into_iter().collect();
    assert_eq!(d.crtc_candidates_for_connector(info_of(&d.connectors[0]), &used), vec![41, 43]);
    let swapped = ConnectorInfo { connected: true, encoders: vec![62, 61, 62], modes: vec![] };
    assert_eq!(d.crtc_candidates_for_connector(&swapped, &none), vec![42, 43, 41]);
}

#[test]
fn unknown_encoders_add_no_candidates() {
    let d = device();
    let info = ConnectorInfo { connected: true, encoders: vec![69, 62], modes: vec![] };
    assert_eq!(d.crtc_candidates_for_connector(&info, &HashSet::new()), vec![42, 43]);
}

#[test]
fn plane_kind_is_read_off_the_type_property() {
    assert_eq!(DeviceSnapshot::plane_is_type(&plane(50, &[], 0), PlaneType::Overlay), Ok(true));
    assert_eq!(DeviceSnapshot::plane_is_type(&plane(50, &[], 1), PlaneType::Primary), Ok(true));
    assert_eq!(DeviceSnapshot::plane_is_type(&plane(50, &[], 2), PlaneType::Cursor), Ok(true));
    assert_eq!(DeviceSnapshot::plane_is_type(&plane(50, &[], 2), PlaneType::Primary), Ok(false));
    assert_eq!(DeviceSnapshot::plane_is_type(&plane(50, &[], 1), PlaneType::Cursor), Ok(false));
    assert_eq!(DeviceSnapshot::plane_is_type(&plane(50, &[], 3), PlaneType::Overlay), Ok(false));
}

#[test]
fn the_first_type_property_decides() {
    let p = PlaneInfo {
        handle: 50,
        compatible_crtcs: vec![],
        properties: Ok(vec![
            PlaneProperty { name: None, value: 1 },
            PlaneProperty { name: Some("TYPE".to_string()), value: 1 },
            PlaneProperty { name: Some("type".to_string()), value: 2 },
            PlaneProperty { name: Some("type".to_string()), value: 1 },
        ]),
    };
    assert_eq!(DeviceSnapshot::plane_is_type(&p, PlaneType::Cursor), Ok(true));
    assert_eq!(DeviceSnapshot::plane_is_type(&p, PlaneType::Primary), Ok(false));
}

#[test]
fn a_plane_without_type_is_of_no_kind() {
    let p = PlaneInfo { handle: 50, compatible_crtcs: vec![], properties: Ok(vec![]) };
    assert_eq!(DeviceSnapshot::plane_is_type(&p, PlaneType::Overlay), Ok(false));
    assert_eq!(DeviceSnapshot::plane_is_type(&p, PlaneType::Primary), Ok(false));
}

#[test]
fn unreadable_properties_end_the_search() {
    let mut d = device();
    d.planes[1].properties = Err("Input/output error".to_string());
    assert_eq!(
        d.find_plane_for_crtc(41, PlaneType::Primary, &HashSet::new()),
        Err(MonitorSetupError::IOError("Input/output error".to_string()))
    );
    assert_eq!(
        d.allocate_monitor_resources(&d.connectors[0], &usage(&[], &[], &[])),
        Err(MonitorSetupError::IOError("Input/output error".to_string()))
    );
    assert_eq!(d.find_plane_for_crtc(42, PlaneType::Primary, &HashSet::new()), Ok(Some(52)));
    let used: HashSet<u32> = [51].into_iter().collect();
    assert_eq!(d.find_plane_for_crtc(41, PlaneType::Primary, &used), Ok(None));
}

#[test]
fn planes_are_searched_in_device_order() {
    let d = device();
    assert_eq!(d.find_plane_for_crtc(42, PlaneType::Cursor, &HashSet::new()), Ok(Some(53)));
    let used: HashSet<u32> = [53].into_iter().collect();
    assert_eq!(d.find_plane_for_crtc(42, PlaneType::Cursor, &used), Ok(Some(54)));
    assert_eq!(d.find_plane_for_crtc(41, PlaneType::Cursor, &used), Ok(None));
    assert_eq!(d.find_plane_for_crtc(41, PlaneType::Overlay, &HashSet::new()), Ok(Some(50)));
    assert_eq!(d.find_plane_for_crtc(49, PlaneType::Primary, &HashSet::new()), Ok(None));
}

#[test]
fn device_knows_its_connectors() {
    let d = device();
    assert!(d.has_connector(31));
    assert!(d.has_connector(33));
    assert!(!d.has_connector(34));
    assert!(list_contains(&vec![1, 2, 3], 3));
    assert!(!list_contains(&vec![1, 2, 3], 4));
    assert!(!list_contains(&vec![], 0));
}
