//! Handing out CRTCs and planes to connectors.
//!
//! The functions work on a snapshot of what the device reported, so that
//! the choice is a function of that report and of what is already in use.

use crate::monitor::{ConnectorInfo, CrtcInfo, MonitorResourceAllocation, MonitorSetupError};
use std::collections::HashSet;
use vstd::prelude::*;
use vstd::string::*;

verus! {

broadcast use vstd::std_specs::hash::group_hash_axioms;

/// The kind of a plane, as its `type` property tells it.
#[derive(Debug, Clone, Copy, PartialEq, Eq, Structural)]
pub enum PlaneType {
    Overlay,
    Primary,
    Cursor,
}

impl PlaneType {
    /// The number by which the kernel names the kind.
    pub open spec fn code(self) -> u64 {
        match self {
            PlaneType::Overlay => 0,
            PlaneType::Primary => 1,
            PlaneType::Cursor => 2,
        }
    }
}

/// Reads the number of a plane kind off `drm::control::PlaneType`, whose
/// variants carry the kernel's constants 0, 1 and 2.
#[verifier::external_body]
fn plane_type_code(kind: PlaneType) -> (code: u64)
    ensures
        code == kind.code(),
{
    let outside = match kind {
        PlaneType::Overlay => drm::control::PlaneType::Overlay,
        PlaneType::Primary => drm::control::PlaneType::Primary,
        PlaneType::Cursor => drm::control::PlaneType::Cursor,
    };
    (outside as u32).into()
}

/// What the device reports about a connector: its description, or the text
/// of the error with which the query failed.
#[derive(Debug, PartialEq, Eq)]
pub struct ConnectorReport {
    pub handle: u32,
    pub info: Result<ConnectorInfo, String>,
}

/// An encoder and the CRTCs that it can feed, in the device's CRTC order.
#[derive(Debug, Clone, PartialEq, Eq)]
pub struct EncoderInfo {
    pub handle: u32,
    pub compatible_crtcs: Vec<u32>,
}

/// One property of a plane and its value. The name is absent when the
/// property could not be described or its name is not text.
#[derive(Debug, Clone, PartialEq, Eq)]
pub struct PlaneProperty {
    pub name: Option<String>,
    pub value: u64,
}

/// A plane, the CRTCs that it can be shown on, and its properties, or the
/// text of the error with which reading them failed.
#[derive(Debug, PartialEq, Eq)]
pub struct PlaneInfo {
    pub handle: u32,
    pub compatible_crtcs: Vec<u32>,
    pub properties: Result<Vec<PlaneProperty>, String>,
}

/// What the device reported: its connectors in its order, the encoders,
/// CRTCs and planes that could be queried, the planes in the device's order.
#[derive(Debug, PartialEq, Eq)]
pub struct DeviceSnapshot {
    pub connectors: Vec<ConnectorReport>,
    pub encoders: Vec<EncoderInfo>,
    pub crtcs: Vec<CrtcInfo>,
    pub planes: Vec<PlaneInfo>,
}

/// The resources that live monitors hold.
pub struct ResourceUsage {
    pub crtcs: HashSet<u32>,
    pub primary_planes: HashSet<u32>,
    pub cursor_planes: HashSet<u32>,
}

/// The first encoder at or after `from` with the given handle.
pub open spec fn find_encoder(encoders: Seq<EncoderInfo>, handle: u32, from: int) -> Option<
    EncoderInfo,
>
    decreases encoders.len() - from,
{
    if from < 0 || from >= encoders.len() {
        None
    } else if encoders[from].handle == handle {
        Some(encoders[from])
    } else {
        find_encoder(encoders, handle, from + 1)
    }
}

/// The first CRTC at or after `from` with the given handle.
pub open spec fn find_crtc(crtcs: Seq<CrtcInfo>, handle: u32, from: int) -> Option<CrtcInfo>
    decreases crtcs.len() - from,
{
    if from < 0 || from >= crtcs.len() {
        None
    } else if crtcs[from].handle == handle {
        Some(crtcs[from])
    } else {
        find_crtc(crtcs, handle, from + 1)
    }
}

/// `found` with those of `crtcs` at its end that are neither in use nor
/// already in the list, in the order of `crtcs`.
pub open spec fn add_new(found: Seq<u32>, crtcs: Seq<u32>, used: Set<u32>) -> Seq<u32>
    decreases crtcs.len(),
{
    if crtcs.len() == 0 {
        found
    } else {
        let head = add_new(found, crtcs.drop_last(), used);
        if used.contains(crtcs.last()) || head.contains(crtcs.last()) {
            head
        } else {
            head.push(crtcs.last())
        }
    }
}

/// The CRTCs that a connector with these encoders can use: encoder by
/// encoder, those that the encoder can feed and that are not in use, each
/// CRTC once, at the place where it came up first. An encoder that could
/// not be queried adds nothing.
pub open spec fn crtc_candidates(
    encoder_handles: Seq<u32>,
    encoders: Seq<EncoderInfo>,
    used: Set<u32>,
) -> Seq<u32>
    decreases encoder_handles.len(),
{
    if encoder_handles.len() == 0 {
        Seq::empty()
    } else {
        let head = crtc_candidates(encoder_handles.drop_last(), encoders, used);
        match find_encoder(encoders, encoder_handles.last(), 0) {
            Some(encoder) => add_new(head, encoder.compatible_crtcs@, used),
            None => head,
        }
    }
}

/// The first of the candidates at or after `from` that could be queried.
pub open spec fn first_queried(candidates: Seq<u32>, crtcs: Seq<CrtcInfo>, from: int) -> Option<
    CrtcInfo,
>
    decreases candidates.len() - from,
{
    if from < 0 || from >= candidates.len() {
        None
    } else {
        match find_crtc(crtcs, candidates[from], 0) {
            Some(info) => Some(info),
            None => first_queried(candidates, crtcs, from + 1),
        }
    }
}

/// The value of the first property at or after `from` that is called
/// `type`.
pub open spec fn type_value(properties: Seq<PlaneProperty>, from: int) -> Option<u64>
    decreases properties.len() - from,
{
    if from < 0 || from >= properties.len() {
        None
    } else if properties[from].name matches Some(name) && name@ == "type"@ {
        Some(properties[from].value)
    } else {
        type_value(properties, from + 1)
    }
}

/// Whether the plane is of the given kind: its `type` property has the
/// number of that kind. A plane without that property is of no kind; one
/// whose properties could not be read gives that error.
pub open spec fn plane_has_type(plane: PlaneInfo, kind: PlaneType) -> Result<
    bool,
    MonitorSetupError,
> {
    match plane.properties {
        Ok(properties) => Ok(type_value(properties@, 0) == Some(kind.code())),
        Err(detail) => Err(MonitorSetupError::IOError(detail)),
    }
}

/// Whether the plane is not in use and can be shown on the CRTC.
pub open spec fn eligible(plane: PlaneInfo, crtc: u32, used: Set<u32>) -> bool {
    !used.contains(plane.handle) && plane.compatible_crtcs@.contains(crtc)
}

/// Whether the search passes over the planes from `from` up to `to`: each
/// is in use, does not fit the CRTC, or is of another kind.
pub open spec fn passes_over(
    planes: Seq<PlaneInfo>,
    from: int,
    to: int,
    crtc: u32,
    kind: PlaneType,
    used: Set<u32>,
) -> bool {
    forall|j: int|
        from <= j < to ==> !eligible(#[trigger] planes[j], crtc, used) || plane_has_type(
            planes[j],
            kind,
        ) == Ok::<bool, MonitorSetupError>(false)
}

/// The plane to use with `crtc`: the first plane at or after `from` that is
/// not in use, can be shown on the CRTC and is of the given kind. A plane
/// on the way that is free and fits the CRTC but whose properties could not
/// be read ends the search with that error.
pub open spec fn find_plane(
    planes: Seq<PlaneInfo>,
    from: int,
    crtc: u32,
    kind: PlaneType,
    used: Set<u32>,
) -> Result<Option<u32>, MonitorSetupError>
    decreases planes.len() - from,
{
    if from < 0 || from >= planes.len() {
        Ok(None)
    } else if !eligible(planes[from], crtc, used) {
        find_plane(planes, from + 1, crtc, kind, used)
    } else {
        match plane_has_type(planes[from], kind) {
            Err(e) => Err(e),
            Ok(true) => Ok(Some(planes[from].handle)),
            Ok(false) => find_plane(planes, from + 1, crtc, kind, used),
        }
    }
}

/// The resources for a monitor on the connector, given what is in use: the
/// first candidate CRTC that could be queried, the first free primary plane
/// that fits it, and the first free cursor plane that fits it, if any.
pub open spec fn allocation_of(
    device: DeviceSnapshot,
    connector: ConnectorReport,
    used_crtcs: Set<u32>,
    used_primary_planes: Set<u32>,
    used_cursor_planes: Set<u32>,
) -> Result<MonitorResourceAllocation, MonitorSetupError> {
    match connector.info {
        Err(detail) => Err(MonitorSetupError::IOError(detail)),
        Ok(info) => if !info.connected {
            Err(MonitorSetupError::NotConnected)
        } else {
            match first_queried(
                crtc_candidates(info.encoders@, device.encoders@, used_crtcs),
                device.crtcs@,
                0,
            ) {
                None => Err(MonitorSetupError::NoCRTCFound),
                Some(crtc_info) => match find_plane(
                    device.planes@,
                    0,
                    crtc_info.handle,
                    PlaneType::Primary,
                    used_primary_planes,
                ) {
                    Err(e) => Err(e),
                    Ok(None) => Err(MonitorSetupError::NoPrimaryPlaneFound),
                    Ok(Some(primary_plane)) => match find_plane(
                        device.planes@,
                        0,
                        crtc_info.handle,
                        PlaneType::Cursor,
                        used_cursor_planes,
                    ) {
                        Err(e) => Err(e),
                        Ok(cursor_plane) => Ok(
                            MonitorResourceAllocation { crtc_info, primary_plane, cursor_plane },
                        ),
                    },
                },
            }
        },
    }
}

/// Whether `list` holds `item`.
pub fn list_contains(list: &Vec<u32>, item: u32) -> (found: bool)
    ensures
        found == list@.contains(item),
{
    let mut i: usize = 0;
    while i < list.len()
        invariant
            i <= list@.len(),
            forall|j: int| 0 <= j < i ==> list@[j] != item,
        decreases list@.len() - i,
    {
        if list[i] == item {
            return true;
        }
        i += 1;
    }
    false
}

/// Whether the device reports a connector with this handle.
pub open spec fn reported(device: DeviceSnapshot, connector: u32) -> bool {
    exists|i: int|
        0 <= i < device.connectors@.len() && (#[trigger] device.connectors@[i]).handle == connector
}

impl DeviceSnapshot {
    /// Whether the device reports a connector with this handle.
    pub fn has_connector(&self, connector: u32) -> (present: bool)
        ensures
            present == reported(*self, connector),
    {
        let mut i: usize = 0;
        while i < self.connectors.len()
            invariant
                i <= self.connectors@.len(),
                forall|j: int| 0 <= j < i ==> (#[trigger] self.connectors@[j]).handle != connector,
            decreases self.connectors@.len() - i,
        {
            if self.connectors[i].handle == connector {
                return true;
            }
            i += 1;
        }
        false
    }

    /// Looks up the encoder with the given handle.
    fn encoder(&self, handle: u32) -> (found: Option<&EncoderInfo>)
        ensures
            found.is_some() == find_encoder(self.encoders@, handle, 0).is_some(),
            found matches Some(e) ==> *e == find_encoder(self.encoders@, handle, 0).unwrap(),
    {
        let mut i: usize = 0;
        while i < self.encoders.len()
            invariant
                i <= self.encoders@.len(),
                find_encoder(self.encoders@, handle, 0) == find_encoder(
                    self.encoders@,
                    handle,
                    i as int,
                ),
            decreases self.encoders@.len() - i,
        {
            if self.encoders[i].handle == handle {
                return Some(&self.encoders[i]);
            }
            i += 1;
        }
        None
    }

    /// Looks up the CRTC with the given handle.
    fn crtc(&self, handle: u32) -> (found: Option<CrtcInfo>)
        ensures
            found == find_crtc(self.crtcs@, handle, 0),
    {
        let mut i: usize = 0;
        while i < self.crtcs.len()
            invariant
                i <= self.crtcs@.len(),
                find_crtc(self.crtcs@, handle, 0) == find_crtc(self.crtcs@, handle, i as int),
            decreases self.crtcs@.len() - i,
        {
            if self.crtcs[i].handle == handle {
                return Some(self.crtcs[i]);
            }
            i += 1;
        }
        None
    }

    /// Lists the CRTCs that the connector can use and that are free.
    pub fn crtc_candidates_for_connector(
        &self,
        connector: &ConnectorInfo,
        used_crtcs: &HashSet<u32>,
    ) -> (candidates: Vec<u32>)
        ensures
            candidates@ == crtc_candidates(connector.encoders@, self.encoders@, used_crtcs@),
    {
        let mut candidates: Vec<u32> = Vec::new();
        let mut i: usize = 0;
        while i < connector.encoders.len()
            invariant
                i <= connector.encoders@.len(),
                candidates@ == crtc_candidates(
                    connector.encoders@.take(i as int),
                    self.encoders@,
                    used_crtcs@,
                ),
            decreases connector.encoders@.len() - i,
        {
            proof {
                let head = connector.encoders@.take(i + 1);
                assert(head.drop_last() =~= connector.encoders@.take(i as int));
            }
            if let Some(encoder) = self.encoder(connector.encoders[i]) {
                let ghost before = candidates@;
                let mut k: usize = 0;
                while k < encoder.compatible_crtcs.len()
                    invariant
                        k <= encoder.compatible_crtcs@.len(),
                        candidates@ == add_new(
                            before,
                            encoder.compatible_crtcs@.take(k as int),
                            used_crtcs@,
                        ),
                    decreases encoder.compatible_crtcs@.len() - k,
                {
                    proof {
                        let head = encoder.compatible_crtcs@.take(k + 1);
                        assert(head.drop_last() =~= encoder.compatible_crtcs@.take(k as int));
                    }
                    let crtc = encoder.compatible_crtcs[k];
                    if !used_crtcs.contains(&crtc) && !list_contains(&candidates, crtc) {
                        candidates.push(crtc);
                    }
                    k += 1;
                }
                proof {
                    assert(encoder.compatible_crtcs@.take(k as int) =~= encoder.compatible_crtcs@);
                }
            }
            i += 1;
        }
        proof {
            assert(connector.encoders@.take(i as int) =~= connector.encoders@);
        }
        candidates
    }

    /// Decides whether a plane is of the given kind.
    pub fn plane_is_type(plane: &PlaneInfo, kind: PlaneType) -> (answer: Result<
        bool,
        MonitorSetupError,
    >)
        ensures
            answer == plane_has_type(*plane, kind),
    {
        match &plane.properties {
            Err(detail) => Err(MonitorSetupError::IOError(detail.clone())),
            Ok(properties) => {
                let wanted = String::from_str("type");
                let mut i: usize = 0;
                while i < properties.len()
                    invariant
                        i <= properties@.len(),
                        wanted@ == "type"@,
                        plane.properties matches Ok(listed) && listed == *properties,
                        type_value(properties@, 0) == type_value(properties@, i as int),
                    decreases properties@.len() - i,
                {
                    let named = match &properties[i].name {
                        Some(name) => *name == wanted,
                        None => false,
                    };
                    if named {
                        let code = plane_type_code(kind);
                        return Ok(properties[i].value == code);
                    }
                    i += 1;
                }
                Ok(false)
            },
        }
    }

    /// Finds the plane of the given kind to use with the CRTC.
    pub fn find_plane_for_crtc(
        &self,
        crtc_handle: u32,
        plane_type: PlaneType,
        used_planes: &HashSet<u32>,
    ) -> (found: Result<Option<u32>, MonitorSetupError>)
        ensures
            found == find_plane(self.planes@, 0, crtc_handle, plane_type, used_planes@),
    {
        let mut i: usize = 0;
        while i < self.planes.len()
            invariant
                i <= self.planes@.len(),
                find_plane(self.planes@, 0, crtc_handle, plane_type, used_planes@) == find_plane(
                    self.planes@,
                    i as int,
                    crtc_handle,
                    plane_type,
                    used_planes@,
                ),
            decreases self.planes@.len() - i,
        {
            let plane = &self.planes[i];
            if !used_planes.contains(&plane.handle) && list_contains(
                &plane.compatible_crtcs,
                crtc_handle,
            ) {
                match Self::plane_is_type(plane, plane_type) {
                    Err(e) => {
                        return Err(e);
                    },
                    Ok(true) => {
                        return Ok(Some(plane.handle));
                    },
                    Ok(false) => {},
                }
            }
            i += 1;
        }
        Ok(None)
    }

    /// Reserves a CRTC, a primary plane and, if there is one, a cursor plane
    /// for a monitor on the connector, out of what is not in use.
    pub fn allocate_monitor_resources(
        &self,
        connector: &ConnectorReport,
        usage: &ResourceUsage,
    ) -> (made: Result<MonitorResourceAllocation, MonitorSetupError>)
        ensures
            made == allocation_of(
                *self,
                *connector,
                usage.crtcs@,
                usage.primary_planes@,
                usage.cursor_planes@,
            ),
    {
        let info = match &connector.info {
            Ok(info) => info,
            Err(detail) => {
                return Err(MonitorSetupError::IOError(detail.clone()));
            },
        };
        if !info.connected {
            return Err(MonitorSetupError::NotConnected);
        }
        let candidates = self.crtc_candidates_for_connector(info, &usage.crtcs);
        let mut crtc_info: Option<CrtcInfo> = None;
        let mut i: usize = 0;
        while i < candidates.len() && crtc_info.is_none()
            invariant
                i <= candidates@.len(),
                crtc_info is None ==> first_queried(candidates@, self.crtcs@, 0) == first_queried(
                    candidates@,
                    self.crtcs@,
                    i as int,
                ),
                crtc_info is Some ==> first_queried(candidates@, self.crtcs@, 0) == crtc_info,
            decreases candidates@.len() - i,
        {
            crtc_info = self.crtc(candidates[i]);
            i += 1;
        }
        let crtc_info = match crtc_info {
            Some(info) => info,
            None => {
                return Err(MonitorSetupError::NoCRTCFound);
            },
        };
        let primary_plane = match self.find_plane_for_crtc(
            crtc_info.handle,
            PlaneType::Primary,
            &usage.primary_planes,
        ) {
            Err(e) => {
                return Err(e);
            },
            Ok(None) => {
                return Err(MonitorSetupError::NoPrimaryPlaneFound);
            },
            Ok(Some(plane)) => plane,
        };
        let cursor_plane = match self.find_plane_for_crtc(
            crtc_info.handle,
            PlaneType::Cursor,
            &usage.cursor_planes,
        ) {
            Err(e) => {
                return Err(e);
            },
            Ok(plane) => plane,
        };
        Ok(MonitorResourceAllocation { crtc_info, primary_plane, cursor_plane })
    }
}

/// What adding new CRTCs to a list gives: the list stays free of repeats,
/// and it holds what it held and those of the new ones that are not in use.
pub proof fn lemma_add_new(found: Seq<u32>, crtcs: Seq<u32>, used: Set<u32>)
    requires
        found.no_duplicates(),
    ensures
        add_new(found, crtcs, used).no_duplicates(),
        forall|c: u32| #[trigger]
            add_new(found, crtcs, used).contains(c) <==> found.contains(c) || (crtcs.contains(c)
                && !used.contains(c)),
    decreases crtcs.len(),
{
    if crtcs.len() > 0 {
        let front = crtcs.drop_last();
        let last = crtcs.last();
        let head = add_new(found, front, used);
        let all = add_new(found, crtcs, used);
        lemma_add_new(found, front, used);
        assert forall|c: u32| #[trigger] all.contains(c) <==> found.contains(c) || (crtcs.contains(
            c,
        ) && !used.contains(c)) by {
            if crtcs.contains(c) {
                let i = choose|i: int| 0 <= i < crtcs.len() && crtcs[i] == c;
                if i < front.len() {
                    assert(front[i] == c);
                }
            }
            if front.contains(c) {
                let i = choose|i: int| 0 <= i < front.len() && front[i] == c;
                assert(crtcs[i] == c);
            }
            if c == last {
                assert(crtcs[crtcs.len() - 1] == c);
            }
            if all.contains(c) && !head.contains(c) {
                let i = choose|i: int| 0 <= i < all.len() && all[i] == c;
                if i < head.len() {
                    assert(head[i] == c);
                }
            }
            if head.contains(c) {
                let i = choose|i: int| 0 <= i < head.len() && head[i] == c;
                assert(all[i] == c);
            }
            if c == last && !used.contains(c) && !head.contains(c) {
                assert(all[all.len() - 1] == c);
            }
        }
    }
}

/// Whether one of the encoders with these handles could be queried and can
/// feed the CRTC.
pub open spec fn feeds(encoder_handles: Seq<u32>, encoders: Seq<EncoderInfo>, crtc: u32) -> bool {
    exists|i: int|
        0 <= i < encoder_handles.len() && #[trigger] feeds_from(encoders, encoder_handles[i], crtc)
}

/// Whether the encoder with this handle could be queried and can feed the
/// CRTC.
pub open spec fn feeds_from(encoders: Seq<EncoderInfo>, handle: u32, crtc: u32) -> bool {
    find_encoder(encoders, handle, 0) matches Some(encoder) && encoder.compatible_crtcs@.contains(
        crtc,
    )
}

/// The candidates are, each once, the CRTCs that are not in use and that
/// one of the connector's encoders can feed.
pub proof fn lemma_candidates(encoder_handles: Seq<u32>, encoders: Seq<EncoderInfo>, used: Set<u32>)
    ensures
        crtc_candidates(encoder_handles, encoders, used).no_duplicates(),
        forall|c: u32| #[trigger]
            crtc_candidates(encoder_handles, encoders, used).contains(c) <==> !used.contains(c)
                && feeds(encoder_handles, encoders, c),
    decreases encoder_handles.len(),
{
    if encoder_handles.len() > 0 {
        let front = encoder_handles.drop_last();
        let last = encoder_handles.last();
        let head = crtc_candidates(front, encoders, used);
        let all = crtc_candidates(encoder_handles, encoders, used);
        lemma_candidates(front, encoders, used);
        match find_encoder(encoders, last, 0) {
            Some(encoder) => {
                lemma_add_new(head, encoder.compatible_crtcs@, used);
            },
            None => {},
        }
        assert forall|c: u32| #[trigger] all.contains(c) <==> !used.contains(c) && feeds(
            encoder_handles,
            encoders,
            c,
        ) by {
            if feeds(front, encoders, c) {
                let i = choose|i: int|
                    0 <= i < front.len() && #[trigger] feeds_from(encoders, front[i], c);
                assert(feeds_from(encoders, encoder_handles[i], c));
            }
            if feeds_from(encoders, last, c) {
                assert(feeds_from(encoders, encoder_handles[encoder_handles.len() - 1], c));
            }
            if feeds(encoder_handles, encoders, c) {
                let i = choose|i: int|
                    0 <= i < encoder_handles.len() && #[trigger] feeds_from(
                        encoders,
                        encoder_handles[i],
                        c,
                    );
                if i < front.len() {
                    assert(feeds_from(encoders, front[i], c));
                }
            }
        }
    }
}

/// A CRTC found by its handle has that handle.
pub proof fn lemma_find_crtc(crtcs: Seq<CrtcInfo>, handle: u32, from: int)
    ensures
        find_crtc(crtcs, handle, from) matches Some(info) ==> info.handle == handle,
    decreases crtcs.len() - from,
{
    if 0 <= from < crtcs.len() && crtcs[from].handle != handle {
        lemma_find_crtc(crtcs, handle, from + 1);
    }
}

/// The CRTC chosen among the candidates is one of them.
pub proof fn lemma_first_queried(candidates: Seq<u32>, crtcs: Seq<CrtcInfo>, from: int)
    requires
        0 <= from,
    ensures
        first_queried(candidates, crtcs, from) matches Some(info) ==> exists|i: int|
            from <= i < candidates.len() && #[trigger] candidates[i] == info.handle,
    decreases candidates.len() - from,
{
    if from < candidates.len() {
        match find_crtc(crtcs, candidates[from], 0) {
            Some(info) => {
                lemma_find_crtc(crtcs, candidates[from], 0);
            },
            None => {
                lemma_first_queried(candidates, crtcs, from + 1);
            },
        }
    }
}

/// What the search for a plane gives: the plane found is the first that is
/// free, fits the CRTC and is of the kind; no plane is found if there is
/// none; and an error is that of the first free and fitting plane whose
/// properties could not be read, if the search got that far.
pub proof fn lemma_find_plane(
    planes: Seq<PlaneInfo>,
    from: int,
    crtc: u32,
    kind: PlaneType,
    used: Set<u32>,
)
    requires
        0 <= from,
    ensures
        match find_plane(planes, from, crtc, kind, used) {
            Ok(Some(plane)) => exists|i: int|
                from <= i < planes.len() && (#[trigger] planes[i]).handle == plane && eligible(
                    planes[i],
                    crtc,
                    used,
                ) && plane_has_type(planes[i], kind) == Ok::<bool, MonitorSetupError>(true)
                    && passes_over(planes, from, i, crtc, kind, used),
            Ok(None) => passes_over(planes, from, planes.len() as int, crtc, kind, used),
            Err(e) => exists|i: int|
                from <= i < planes.len() && eligible(#[trigger] planes[i], crtc, used)
                    && plane_has_type(planes[i], kind) == Err::<bool, MonitorSetupError>(e)
                    && passes_over(planes, from, i, crtc, kind, used),
        },
    decreases planes.len() - from,
{
    if from < planes.len() {
        lemma_find_plane(planes, from + 1, crtc, kind, used);
        let here = planes[from];
        if eligible(here, crtc, used) && plane_has_type(here, kind) != Ok::<bool, MonitorSetupError>(
            false,
        ) {
            assert(passes_over(planes, from, from, crtc, kind, used));
        } else {
            match find_plane(planes, from + 1, crtc, kind, used) {
                Ok(Some(plane)) => {
                    let i = choose|i: int|
                        from + 1 <= i < planes.len() && (#[trigger] planes[i]).handle == plane
                            && eligible(planes[i], crtc, used) && plane_has_type(planes[i], kind)
                            == Ok::<bool, MonitorSetupError>(true) && passes_over(
                            planes,
                            from + 1,
                            i,
                            crtc,
                            kind,
                            used,
                        );
                    assert(passes_over(planes, from, i, crtc, kind, used));
                },
                Ok(None) => {},
                Err(e) => {
                    let i = choose|i: int|
                        from + 1 <= i < planes.len() && eligible(#[trigger] planes[i], crtc, used)
                            && plane_has_type(planes[i], kind) == Err::<bool, MonitorSetupError>(e)
                            && passes_over(planes, from + 1, i, crtc, kind, used);
                    assert(passes_over(planes, from, i, crtc, kind, used));
                },
            }
        }
    }
}

/// What is reserved for a new monitor is in use by no other: neither the
/// CRTC, nor the primary plane, nor the cursor plane if there is one.
pub proof fn lemma_allocation_free(
    device: DeviceSnapshot,
    connector: ConnectorReport,
    used_crtcs: Set<u32>,
    used_primary_planes: Set<u32>,
    used_cursor_planes: Set<u32>,
)
    ensures
        allocation_of(
            device,
            connector,
            used_crtcs,
            used_primary_planes,
            used_cursor_planes,
        ) matches Ok(made) ==> {
            &&& connector.info matches Ok(info) && info.connected
            &&& !used_crtcs.contains(made.crtc_info.handle)
            &&& !used_primary_planes.contains(made.primary_plane)
            &&& made.cursor_plane matches Some(cursor) ==> !used_cursor_planes.contains(cursor)
        },
{
    if let Ok(info) = connector.info {
        let candidates = crtc_candidates(info.encoders@, device.encoders@, used_crtcs);
        lemma_candidates(info.encoders@, device.encoders@, used_crtcs);
        lemma_first_queried(candidates, device.crtcs@, 0);
        if let Some(chosen) = first_queried(candidates, device.crtcs@, 0) {
            assert(candidates.contains(chosen.handle));
        }
        if let Some(crtc_info) = first_queried(candidates, device.crtcs@, 0) {
            lemma_find_plane(
                device.planes@,
                0,
                crtc_info.handle,
                PlaneType::Primary,
                used_primary_planes,
            );
            lemma_find_plane(
                device.planes@,
                0,
                crtc_info.handle,
                PlaneType::Cursor,
                used_cursor_planes,
            );
        }
    }
}

} // verus!
