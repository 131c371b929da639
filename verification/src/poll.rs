//! What the event loop waits on, and what a wake-up calls for.

use vstd::prelude::*;

verus! {

/// The descriptors to wait on for readability, in this order: the device,
/// the caller's own descriptors, and the uevent socket if there is one.
pub open spec fn poll_descriptors(drm_fd: i32, extra_fds: Seq<i32>, uevent_fd: Option<i32>) -> Seq<
    i32,
> {
    seq![drm_fd] + extra_fds + match uevent_fd {
        Some(fd) => seq![fd],
        None => Seq::empty(),
    }
}

/// The position of the first of `descriptors` at or after `from` that is
/// `fd`.
pub open spec fn first_position(descriptors: Seq<i32>, fd: i32, from: int) -> Option<int>
    decreases descriptors.len() - from,
{
    if from < 0 || from >= descriptors.len() {
        None
    } else if descriptors[from] == fd {
        Some(from)
    } else {
        first_position(descriptors, fd, from + 1)
    }
}

/// Whether the device has events to read: the first of the descriptors is
/// the device's.
pub open spec fn drm_is_ready(readable: Seq<bool>) -> bool {
    readable.len() > 0 && readable[0]
}

/// Whether the uevent socket has messages to read: the first descriptor
/// that is the socket's is readable.
pub open spec fn hotplug_is_ready(descriptors: Seq<i32>, readable: Seq<bool>, uevent_fd: Option<i32>)
    -> bool {
    match uevent_fd {
        Some(fd) => match first_position(descriptors, fd, 0) {
            Some(at) => at < readable.len() && readable[at],
            None => false,
        },
        None => false,
    }
}

/// A set of descriptors to wait on.
#[derive(Debug, Clone, PartialEq, Eq)]
pub struct PollSet {
    pub descriptors: Vec<i32>,
    pub uevent_fd: Option<i32>,
}

/// What a wake-up calls for.
#[derive(Debug, Clone, Copy, PartialEq, Eq, Structural)]
pub struct Wake {
    /// The uevent socket is to be drained.
    pub hotplug_ready: bool,
    /// The events of the device are to be received.
    pub drm_ready: bool,
}

impl PollSet {
    /// The set for the device, the caller's descriptors and the uevent
    /// socket.
    pub fn new(drm_fd: i32, extra_fds: &Vec<i32>, uevent_fd: Option<i32>) -> (set: PollSet)
        ensures
            set.descriptors@ == poll_descriptors(drm_fd, extra_fds@, uevent_fd),
            set.uevent_fd == uevent_fd,
    {
        let mut descriptors: Vec<i32> = Vec::new();
        descriptors.push(drm_fd);
        let mut i: usize = 0;
        while i < extra_fds.len()
            invariant
                i <= extra_fds@.len(),
                descriptors@ == seq![drm_fd] + extra_fds@.take(i as int),
            decreases extra_fds@.len() - i,
        {
            descriptors.push(extra_fds[i]);
            i += 1;
        }
        if let Some(fd) = uevent_fd {
            descriptors.push(fd);
        }
        PollSet { descriptors, uevent_fd }
    }

    /// Reads off what a wake-up calls for, given which of the descriptors
    /// are readable, in the order of the set.
    pub fn wake(&self, readable: &Vec<bool>) -> (wake: Wake)
        ensures
            wake.drm_ready == drm_is_ready(readable@),
            wake.hotplug_ready == hotplug_is_ready(self.descriptors@, readable@, self.uevent_fd),
    {
        let drm_ready = readable.len() > 0 && readable[0];
        let mut hotplug_ready = false;
        if let Some(fd) = self.uevent_fd {
            let mut i: usize = 0;
            while i < self.descriptors.len()
                invariant
                    i <= self.descriptors@.len(),
                    !hotplug_ready,
                    drm_ready == drm_is_ready(readable@),
                    self.uevent_fd == Some(fd),
                    first_position(self.descriptors@, fd, 0) == first_position(
                        self.descriptors@,
                        fd,
                        i as int,
                    ),
                decreases self.descriptors@.len() - i,
            {
                if self.descriptors[i] == fd {
                    hotplug_ready = i < readable.len() && readable[i];
                    return Wake { hotplug_ready, drm_ready };
                }
                i += 1;
            }
        }
        Wake { hotplug_ready, drm_ready }
    }
}

/// Whether the monitors are to be reconciled with the device after the
/// uevent socket was drained: only if a hot-plug message was seen. A
/// failure to drain counts as none seen.
pub fn hotplug_seen(drained: &Result<bool, i32>) -> (seen: bool)
    ensures
        seen == (*drained == Ok::<bool, i32>(true)),
{
    match drained {
        Ok(found) => *found,
        Err(_) => false,
    }
}

} // verus!
