//! Kernel uevent messages and the draining of the uevent socket.

use vstd::prelude::*;
use vstd::string::*;

verus! {

/// `needle` stands in `hay` at offset `at`.
pub open spec fn occurs_at(hay: Seq<u8>, needle: Seq<u8>, at: int) -> bool {
    &&& 0 <= at
    &&& at + needle.len() <= hay.len()
    &&& hay.subrange(at, at + needle.len()) == needle
}

/// `needle` is a contiguous part of `hay`.
pub open spec fn occurs(hay: Seq<u8>, needle: Seq<u8>) -> bool {
    exists|at: int| occurs_at(hay, needle, at)
}

/// A uevent message announces a DRM hot-plug when it is text that names the
/// DRM subsystem, carries the hot-plug marker, and concerns a connector or a
/// card device.
pub open spec fn is_hotplug_message(msg: Seq<u8>) -> bool {
    &&& vstd::utf8::valid_utf8(msg)
    &&& occurs(msg, "SUBSYSTEM=drm".spec_bytes())
    &&& occurs(msg, "HOTPLUG=1".spec_bytes())
    &&& (occurs(msg, "DEVTYPE=connector".spec_bytes()) || occurs(
        msg,
        "DEVNAME=card".spec_bytes(),
    ))
}

/// Calls `std::str::from_utf8` and reports whether it accepted the bytes.
/// The standard library documents that it succeeds exactly on well-formed
/// UTF-8; the contract states that with vstd's definition of well-formedness.
#[verifier::external_body]
fn is_utf8(bytes: &[u8]) -> (ok: bool)
    ensures
        ok == vstd::utf8::valid_utf8(bytes@),
{
    std::str::from_utf8(bytes).is_ok()
}

/// Compares `needle` with the part of `hay` that starts at `at`.
fn matches_at(hay: &[u8], needle: &[u8], at: usize) -> (hit: bool)
    requires
        at + needle@.len() <= hay@.len() <= usize::MAX,
    ensures
        hit == occurs_at(hay@, needle@, at as int),
{
    let mut k: usize = 0;
    while k < needle.len()
        invariant
            k <= needle@.len(),
            at + needle@.len() <= hay@.len() <= usize::MAX,
            forall|j: int| 0 <= j < k ==> hay@[at + j] == needle@[j],
        decreases needle@.len() - k,
    {
        if hay[at + k] != needle[k] {
            proof {
                let part = hay@.subrange(at as int, at + needle@.len());
            }
            return false;
        }
        k += 1;
    }
    proof {
        assert(hay@.subrange(at as int, at + needle@.len()) =~= needle@);
    }
    true
}

/// Searches `hay` for `needle`.
pub fn contains_bytes(hay: &[u8], needle: &[u8]) -> (found: bool)
    ensures
        found == occurs(hay@, needle@),
{
    if needle.len() > hay.len() {
        return false;
    }
    let last: usize = hay.len() - needle.len();
    let mut at: usize = 0;
    loop
        invariant
            last == hay@.len() - needle@.len(),
            hay@.len() <= usize::MAX,
            at <= last,
            forall|j: int| 0 <= j < at ==> !occurs_at(hay@, needle@, j),
        decreases last - at,
    {
        if matches_at(hay, needle, at) {
            return true;
        }
        if at == last {
            return false;
        }
        at += 1;
    }
}

/// Decides whether one uevent message is a DRM hot-plug notification.
pub fn is_drm_hotplug(msg: &[u8]) -> (hit: bool)
    ensures
        hit == is_hotplug_message(msg@),
{
    if !is_utf8(msg) {
        return false;
    }
    contains_bytes(msg, "SUBSYSTEM=drm".as_bytes()) && contains_bytes(msg, "HOTPLUG=1".as_bytes())
        && (contains_bytes(msg, "DEVTYPE=connector".as_bytes()) || contains_bytes(
        msg,
        "DEVNAME=card".as_bytes(),
    ))
}

/// The netlink multicast group that carries the kernel's uevents.
pub const UEVENT_GROUP: u32 = 1;

/// The size of the buffer that one uevent message is received into.
pub const UEVENT_BUFFER_SIZE: usize = 4096;

/// What one attempt to receive from the uevent socket without blocking
/// gave.
#[derive(Debug, Clone, PartialEq, Eq)]
pub enum RecvOutcome {
    /// A message, possibly an empty one.
    Received(Vec<u8>),
    /// Nothing is waiting.
    WouldBlock,
    /// The attempt failed with this error number.
    Failed(i32),
}

/// What to do after an attempt to receive.
#[derive(Debug, Clone, Copy, PartialEq, Eq)]
pub enum DrainStep {
    /// Receive again.
    Continue,
    /// The socket is drained; the flag tells whether a hot-plug was seen.
    Finished(bool),
    /// Give up with this error number.
    Aborted(i32),
}

/// What draining amounts to when the attempts to receive give `outcomes`
/// from position `from` on, and `found` tells whether a hot-plug message was
/// seen before: messages are looked at until nothing is waiting, which ends
/// the draining with whether one of them was a hot-plug, or until an
/// attempt fails, which ends it with that error. Attempts that are not
/// recorded count as nothing waiting.
pub open spec fn drained(outcomes: Seq<RecvOutcome>, from: int, found: bool) -> Result<bool, i32>
    decreases outcomes.len() - from,
{
    if from < 0 || from >= outcomes.len() {
        Ok(found)
    } else {
        match outcomes[from] {
            RecvOutcome::Received(msg) => drained(
                outcomes,
                from + 1,
                found || is_hotplug_message(msg@),
            ),
            RecvOutcome::WouldBlock => Ok(found),
            RecvOutcome::Failed(errno) => Err(errno),
        }
    }
}

/// The uevent socket while it is drained: whether a hot-plug message was
/// received so far.
#[derive(Debug, Clone, Copy, PartialEq, Eq)]
pub struct UEventSocket {
    found: bool,
}

impl UEventSocket {
    /// Whether a hot-plug message was received so far.
    pub closed spec fn spec_found(&self) -> bool {
        self.found
    }

    /// The state before the first attempt to receive.
    pub fn open() -> (socket: UEventSocket)
        ensures
            !socket.spec_found(),
    {
        UEventSocket { found: false }
    }

    /// Whether a hot-plug message was received so far.
    pub fn found(&self) -> (found: bool)
        ensures
            found == self.spec_found(),
    {
        self.found
    }

    /// Takes note of one attempt to receive and says how to go on.
    pub fn step(&mut self, outcome: &RecvOutcome) -> (next: DrainStep)
        ensures
            match *outcome {
                RecvOutcome::Received(msg) => next == DrainStep::Continue && final(self).spec_found()
                    == (old(self).spec_found() || is_hotplug_message(msg@)),
                RecvOutcome::WouldBlock => next == DrainStep::Finished(old(self).spec_found())
                    && final(self).spec_found() == old(self).spec_found(),
                RecvOutcome::Failed(errno) => next == DrainStep::Aborted(errno)
                    && final(self).spec_found() == old(self).spec_found(),
            },
    {
        match outcome {
            RecvOutcome::Received(msg) => {
                if is_drm_hotplug(msg.as_slice()) {
                    self.found = true;
                }
                DrainStep::Continue
            },
            RecvOutcome::WouldBlock => DrainStep::Finished(self.found),
            RecvOutcome::Failed(errno) => DrainStep::Aborted(*errno),
        }
    }

    /// Drains the socket, given what the attempts to receive gave, in their
    /// order: says whether a hot-plug message was among those received
    /// before nothing was waiting, or with which error an attempt failed.
    pub fn drain_hotplug_events(outcomes: &Vec<RecvOutcome>) -> (seen: Result<bool, i32>)
        ensures
            seen == drained(outcomes@, 0, false),
    {
        let mut socket = UEventSocket::open();
        let mut i: usize = 0;
        while i < outcomes.len()
            invariant
                i <= outcomes@.len(),
                drained(outcomes@, 0, false) == drained(outcomes@, i as int, socket.spec_found()),
            decreases outcomes@.len() - i,
        {
            match socket.step(&outcomes[i]) {
                DrainStep::Continue => {},
                DrainStep::Finished(found) => {
                    return Ok(found);
                },
                DrainStep::Aborted(errno) => {
                    return Err(errno);
                },
            }
            i += 1;
        }
        Ok(socket.found())
    }
}

} // verus!
