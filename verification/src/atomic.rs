//! Atomic property requests, built with the `drm` crate's request type.

use drm::control::atomic::AtomicModeReq;
use vstd::prelude::*;

verus! {

#[verifier::external_type_specification]
#[verifier::external_body]
pub struct ExAtomicModeReq(AtomicModeReq);

/// The property assignments that a request holds: for each pair of object
/// and property at most one raw value.
pub uninterp spec fn request_entries(req: AtomicModeReq) -> Map<(u32, u32), u64>;

/// No assignment at all.
pub open spec fn no_entries() -> Map<(u32, u32), u64> {
    Map::empty()
}

/// `AtomicModeReq::new` returns a request without any assignment.
pub assume_specification[ AtomicModeReq::new ]() -> (req: AtomicModeReq)
    ensures
        request_entries(req) == no_entries(),
;

/// The value that an atomic request assigns to a property.
#[derive(Clone, Copy, Debug, PartialEq, Eq, Structural)]
pub enum PropertyValue {
    /// A flag.
    Boolean(bool),
    /// An unsigned number.
    UnsignedRange(u64),
    /// A signed number.
    SignedRange(i64),
    /// The identifier of a property blob.
    Blob(u64),
    /// A CRTC, by its handle.
    Crtc(u32),
    /// A framebuffer, by its handle.
    Framebuffer(u32),
}

/// The 64-bit word that the kernel receives for a value: flags as 0 or 1,
/// numbers as they are (signed ones in two's complement), objects by their
/// handle, where handle 0 stands for no object.
pub open spec fn raw_value(value: PropertyValue) -> u64 {
    match value {
        PropertyValue::Boolean(b) => if b { 1u64 } else { 0u64 },
        PropertyValue::UnsignedRange(x) => x,
        PropertyValue::SignedRange(x) => if x >= 0 {
            x as u64
        } else {
            (x + 0x1_0000_0000_0000_0000) as u64
        },
        PropertyValue::Blob(x) => x,
        PropertyValue::Crtc(h) => h as u64,
        PropertyValue::Framebuffer(h) => h as u64,
    }
}

/// Converts a value with the `drm` crate's `From<property::Value>` for
/// `RawValue`. Its source maps `Boolean` to 0 or 1, hands numbers and blob
/// identifiers on unchanged (a signed one cast to `u64`), and widens an
/// object's handle, with 0 for an absent object.
#[verifier::external_body]
fn encode_value(value: PropertyValue) -> (raw: u64)
    ensures
        raw == raw_value(value),
{
    let typed = match value {
        PropertyValue::Boolean(b) => drm::control::property::Value::Boolean(b),
        PropertyValue::UnsignedRange(x) => drm::control::property::Value::UnsignedRange(x),
        PropertyValue::SignedRange(x) => drm::control::property::Value::SignedRange(x),
        PropertyValue::Blob(x) => drm::control::property::Value::Blob(x),
        PropertyValue::Crtc(h) => drm::control::property::Value::CRTC(drm::control::from_u32(h)),
        PropertyValue::Framebuffer(h) => drm::control::property::Value::Framebuffer(
            drm::control::from_u32(h),
        ),
    };
    typed.into()
}

/// Calls `AtomicModeReq::add_raw_property`. Its source keeps one value per
/// object and property: a new pair is added, an existing pair gets the new
/// value, and all other assignments stay.
#[verifier::external_body]
fn add_raw_property(req: &mut AtomicModeReq, object: u32, property: u32, raw: u64)
    requires
        object != 0,
        property != 0,
    ensures
        request_entries(*final(req)) == request_entries(*old(req)).insert((object, property), raw),
{
    let object_handle = std::num::NonZeroU32::new(object).unwrap();
    let property_handle = drm::control::from_u32(property).unwrap();
    req.add_raw_property(object_handle, property_handle, raw);
}

/// Assigns `value` to `property` of `object` in `req`, replacing an earlier
/// assignment to the same property of the same object.
pub fn add_property(req: &mut AtomicModeReq, object: u32, property: u32, value: PropertyValue)
    requires
        object != 0,
        property != 0,
    ensures
        request_entries(*final(req)) == request_entries(*old(req)).insert(
            (object, property),
            raw_value(value),
        ),
{
    let raw = encode_value(value);
    add_raw_property(req, object, property, raw);
}

/// One property assignment of a request.
#[derive(Clone, Copy, Debug, PartialEq, Eq, Structural)]
pub struct Assignment {
    pub object: u32,
    pub property: u32,
    pub value: PropertyValue,
}

/// Whether an assignment names its object and its property by handles of
/// the device, which are never zero.
pub open spec fn is_addressed(item: Assignment) -> bool {
    item.object != 0 && item.property != 0
}

/// The entries of a request after `list` was assigned on top of `entries`,
/// first to last. An assignment that is not addressed is left out.
pub open spec fn assign_all(entries: Map<(u32, u32), u64>, list: Seq<Assignment>) -> Map<
    (u32, u32),
    u64,
>
    decreases list.len(),
{
    if list.len() == 0 {
        entries
    } else if is_addressed(list.last()) {
        assign_all(entries, list.drop_last()).insert(
            (list.last().object, list.last().property),
            raw_value(list.last().value),
        )
    } else {
        assign_all(entries, list.drop_last())
    }
}

/// Assigning two lists one after the other is assigning their
/// concatenation.
pub proof fn lemma_assign_all_concat(
    entries: Map<(u32, u32), u64>,
    first: Seq<Assignment>,
    second: Seq<Assignment>,
)
    ensures
        assign_all(assign_all(entries, first), second) == assign_all(entries, first + second),
    decreases second.len(),
{
    if second.len() == 0 {
    } else {
        lemma_assign_all_concat(entries, first, second.drop_last());
        assert((first + second).drop_last() =~= first + second.drop_last());
    }
}

/// Assigns the whole of `list` in `req`, first to last, but for what is not
/// addressed.
pub fn add_properties(req: &mut AtomicModeReq, list: &Vec<Assignment>)
    ensures
        request_entries(*final(req)) == assign_all(request_entries(*old(req)), list@),
{
    let mut i: usize = 0;
    while i < list.len()
        invariant
            i <= list@.len(),
            request_entries(*req) == assign_all(request_entries(*old(req)), list@.take(i as int)),
        decreases list@.len() - i,
    {
        let item = list[i];
        proof {
            let head = list@.take(i + 1);
            assert(head.drop_last() =~= list@.take(i as int));
        }
        if item.object != 0 && item.property != 0 {
            add_property(req, item.object, item.property, item.value);
        }
        i += 1;
    }
    proof {
        assert(list@.take(i as int) =~= list@);
    }
}

} // verus!
