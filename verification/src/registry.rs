//! The device multiplexer: a mapping from channel identifier to
//! [`CharDevice`], routing incoming `(channel, byte)` pairs to the correct
//! buffer. Channel 0 is reserved by convention for the locally edited input
//! buffer; all other channels display output fed by external producers.

use vstd::prelude::*;
use vstd::hash_map::HashMapWithView;

use crate::char_device::CharDevice;
use crate::char_device::DeviceView;
use crate::char_device::device_after_cursor_down;
use crate::char_device::device_after_cursor_left;
use crate::char_device::device_after_cursor_right;
use crate::char_device::device_after_cursor_up;
use crate::char_device::device_after_write;
use crate::char_device::empty_device;
use crate::char_device::line_lengths;

verus! {

broadcast use vstd::std_specs::hash::group_hash_axioms;

/// What a completed routing step did to the addressed device, and what it
/// handed back: the device is drained on a channel switch, the byte is
/// written, and a completed line on the input channel of a connected shell
/// is taken for sending.
pub open spec fn route_outcome(
    before: DeviceView,
    switched: bool,
    next: u8,
    connected: bool,
    input_channel: bool,
) -> (DeviceView, Option<Seq<char>>) {
    let start = if switched {
        empty_device()
    } else {
        before
    };
    let written = device_after_write(start, next as char);
    if input_channel && connected && line_lengths(written.buffer).len() > 1 {
        (empty_device(), Some(written.buffer))
    } else {
        (written, None)
    }
}

/// Routes `(channel, byte)` pairs to the devices of a set of channels.
pub struct DeviceRegistry {
    /// The devices, one per channel.
    devices: HashMapWithView<u32, CharDevice>,
    /// The channel whose output is currently viewed.
    channel: u32,
    /// The channel that accepts locally typed edits, if any.
    editing: Option<u32>,
}

impl DeviceRegistry {
    /// Every stored device satisfies its invariant.
    pub closed spec fn wf(&self) -> bool {
        forall|id: u32| #[trigger]
            self.devices@.contains_key(id) ==> self.devices@[id].wf()
    }

    /// The stored devices, by channel.
    pub closed spec fn spec_devices(&self) -> Map<u32, CharDevice> {
        self.devices@
    }

    /// The channel whose output is currently viewed.
    pub closed spec fn spec_channel(&self) -> u32 {
        self.channel
    }

    /// The channel that accepts local edits, if any.
    pub closed spec fn spec_editing(&self) -> Option<u32> {
        self.editing
    }

    /// An empty registry viewing channel 0, with nothing editable.
    pub fn new() -> (r: DeviceRegistry)
        ensures
            r.wf(),
            r.spec_devices() == Map::<u32, CharDevice>::empty(),
            r.spec_channel() == 0,
            r.spec_editing() is None,
    {
        DeviceRegistry { devices: HashMapWithView::new(), channel: 0, editing: None }
    }

    /// Inserts a fresh, empty device for `channel`. A device already stored
    /// for that channel is overwritten, deliberately: adding a channel twice
    /// resets it.
    pub fn add_device(&mut self, channel: u32)
        requires
            old(self).wf(),
        ensures
            final(self).wf(),
            final(self).spec_devices().dom() == old(self).spec_devices().dom().insert(channel),
            final(self).spec_devices()[channel]@ == empty_device(),
            final(self).spec_devices()[channel].wf(),
            forall|id: u32| #[trigger]
                old(self).spec_devices().contains_key(id) && id != channel
                    ==> final(self).spec_devices().contains_key(id)
                    && final(self).spec_devices()[id] == old(self).spec_devices()[id],
            final(self).spec_channel() == old(self).spec_channel(),
            final(self).spec_editing() == old(self).spec_editing(),
    {
        self.devices.insert(channel, CharDevice::new());
    }

    /// Whether a device is stored for `channel`.
    pub fn has_channel(&self, channel: u32) -> (r: bool)
        ensures
            r == self.spec_devices().contains_key(channel),
    {
        self.devices.contains_key(&channel)
    }

    /// The device stored for `channel`, if any; read-only access for
    /// rendering.
    pub fn device(&self, channel: u32) -> (r: Option<&CharDevice>)
        ensures
            match r {
                Some(d) => self.spec_devices().contains_key(channel)
                    && *d == self.spec_devices()[channel],
                None => !self.spec_devices().contains_key(channel),
            },
    {
        self.devices.get(&channel)
    }

    /// Marks `channel` as the one that accepts local edits, or clears the
    /// mark.
    pub fn set_editing(&mut self, channel: Option<u32>)
        requires
            old(self).wf(),
        ensures
            final(self).wf(),
            final(self).spec_editing() == channel,
            final(self).spec_devices() == old(self).spec_devices(),
            final(self).spec_channel() == old(self).spec_channel(),
    {
        self.editing = channel;
    }

    /// The channel that accepts local edits, if any.
    pub fn editing(&self) -> (r: Option<u32>)
        ensures
            r == self.spec_editing(),
    {
        self.editing
    }

    /// The channel whose output is currently viewed.
    pub fn current_channel(&self) -> (r: u32)
        ensures
            r == self.spec_channel(),
    {
        self.channel
    }

    /// Dispatches one byte to the device of `channel`, creating no device
    /// implicitly: a byte for an unknown channel is dropped. Arriving bytes
    /// switch the viewed channel; a switch to a non-zero channel drains the
    /// stale buffer of that channel first (its history is not retained).
    /// When the input channel of a connected shell completes a line, the
    /// buffer is taken and returned for sending.
    pub fn route(&mut self, channel: u32, next: u8, connected: bool) -> (sent: Option<String>)
        requires
            old(self).wf(),
        ensures
            final(self).wf(),
            final(self).spec_editing() == old(self).spec_editing(),
            !old(self).spec_devices().contains_key(channel)
                ==> final(self).spec_devices() == old(self).spec_devices()
                && sent is None
                && final(self).spec_channel() == old(self).spec_channel(),
            old(self).spec_devices().contains_key(channel) ==> ({
                let switched = channel != old(self).spec_channel() && channel != 0;
                let (after, line) = route_outcome(
                    old(self).spec_devices()[channel]@,
                    switched,
                    next,
                    connected,
                    channel == 0,
                );
                &&& final(self).spec_channel() == channel
                &&& final(self).spec_devices().dom() == old(self).spec_devices().dom()
                &&& final(self).spec_devices()[channel]@ == after
                &&& forall|id: u32| #[trigger]
                    old(self).spec_devices().contains_key(id) && id != channel
                        ==> final(self).spec_devices()[id] == old(self).spec_devices()[id]
                &&& match (sent, line) {
                    (Some(s), Some(l)) => s@ == l,
                    (None, None) => true,
                    _ => false,
                }
            }),
    {
        match self.devices.remove(&channel) {
            Some(mut device) => {
                let mut sent: Option<String> = None;
                if self.channel != channel && channel != 0 {
                    // switching away discards the stale buffer; it is not
                    // added to a history
                    let _discarded = device.take_buffer();
                }
                device.write_char(next);
                if channel == 0 && connected && device.line_count() > 1 {
                    sent = Some(device.take_buffer());
                }
                self.channel = channel;
                self.devices.insert(channel, device);
                proof {
                    assert(final(self).spec_devices().dom() =~= old(self).spec_devices().dom());
                }
                sent
            },
            None => None,
        }
    }

    /// Moves the cursor of the editable device left.
    pub fn editing_cursor_left(&mut self)
        requires
            old(self).wf(),
        ensures
            final(self).wf(),
            final(self).spec_editing() == old(self).spec_editing(),
            final(self).spec_channel() == old(self).spec_channel(),
            match old(self).spec_editing() {
                None => final(self).spec_devices() == old(self).spec_devices(),
                Some(id) => {
                    &&& !old(self).spec_devices().contains_key(id)
                        ==> final(self).spec_devices() == old(self).spec_devices()
                    &&& old(self).spec_devices().contains_key(id) ==> ({
                        &&& final(self).spec_devices().dom() == old(self).spec_devices().dom()
                        &&& final(self).spec_devices()[id]@ == device_after_cursor_left(
                            old(self).spec_devices()[id]@,
                        )
                        &&& forall|id2: u32| #[trigger]
                            old(self).spec_devices().contains_key(id2) && id2 != id
                                ==> final(self).spec_devices()[id2]
                                == old(self).spec_devices()[id2]
                    })
                },
            },
    {
        let id = match self.editing {
            Some(id) => id,
            None => {
                return ;
            },
        };
        match self.devices.remove(&id) {
            Some(mut device) => {
                device.cursor_left();
                self.devices.insert(id, device);
                proof {
                    assert(final(self).spec_devices().dom() =~= old(self).spec_devices().dom());
                }
            },
            None => {},
        }
    }

    /// Moves the cursor of the editable device right.
    pub fn editing_cursor_right(&mut self)
        requires
            old(self).wf(),
        ensures
            final(self).wf(),
            final(self).spec_editing() == old(self).spec_editing(),
            final(self).spec_channel() == old(self).spec_channel(),
            match old(self).spec_editing() {
                None => final(self).spec_devices() == old(self).spec_devices(),
                Some(id) => {
                    &&& !old(self).spec_devices().contains_key(id)
                        ==> final(self).spec_devices() == old(self).spec_devices()
                    &&& old(self).spec_devices().contains_key(id) ==> ({
                        &&& final(self).spec_devices().dom() == old(self).spec_devices().dom()
                        &&& final(self).spec_devices()[id]@ == device_after_cursor_right(
                            old(self).spec_devices()[id]@,
                        )
                        &&& forall|id2: u32| #[trigger]
                            old(self).spec_devices().contains_key(id2) && id2 != id
                                ==> final(self).spec_devices()[id2]
                                == old(self).spec_devices()[id2]
                    })
                },
            },
    {
        let id = match self.editing {
            Some(id) => id,
            None => {
                return ;
            },
        };
        match self.devices.remove(&id) {
            Some(mut device) => {
                device.cursor_right();
                self.devices.insert(id, device);
                proof {
                    assert(final(self).spec_devices().dom() =~= old(self).spec_devices().dom());
                }
            },
            None => {},
        }
    }

    /// Moves the cursor of the editable device up a line.
    pub fn editing_cursor_up(&mut self)
        requires
            old(self).wf(),
        ensures
            final(self).wf(),
            final(self).spec_editing() == old(self).spec_editing(),
            final(self).spec_channel() == old(self).spec_channel(),
            match old(self).spec_editing() {
                None => final(self).spec_devices() == old(self).spec_devices(),
                Some(id) => {
                    &&& !old(self).spec_devices().contains_key(id)
                        ==> final(self).spec_devices() == old(self).spec_devices()
                    &&& old(self).spec_devices().contains_key(id) ==> ({
                        &&& final(self).spec_devices().dom() == old(self).spec_devices().dom()
                        &&& final(self).spec_devices()[id]@ == device_after_cursor_up(
                            old(self).spec_devices()[id]@,
                        )
                        &&& forall|id2: u32| #[trigger]
                            old(self).spec_devices().contains_key(id2) && id2 != id
                                ==> final(self).spec_devices()[id2]
                                == old(self).spec_devices()[id2]
                    })
                },
            },
    {
        let id = match self.editing {
            Some(id) => id,
            None => {
                return ;
            },
        };
        match self.devices.remove(&id) {
            Some(mut device) => {
                device.cursor_up();
                self.devices.insert(id, device);
                proof {
                    assert(final(self).spec_devices().dom() =~= old(self).spec_devices().dom());
                }
            },
            None => {},
        }
    }

    /// Moves the cursor of the editable device down a line.
    pub fn editing_cursor_down(&mut self)
        requires
            old(self).wf(),
        ensures
            final(self).wf(),
            final(self).spec_editing() == old(self).spec_editing(),
            final(self).spec_channel() == old(self).spec_channel(),
            match old(self).spec_editing() {
                None => final(self).spec_devices() == old(self).spec_devices(),
                Some(id) => {
                    &&& !old(self).spec_devices().contains_key(id)
                        ==> final(self).spec_devices() == old(self).spec_devices()
                    &&& old(self).spec_devices().contains_key(id) ==> ({
                        &&& final(self).spec_devices().dom() == old(self).spec_devices().dom()
                        &&& final(self).spec_devices()[id]@ == device_after_cursor_down(
                            old(self).spec_devices()[id]@,
                        )
                        &&& forall|id2: u32| #[trigger]
                            old(self).spec_devices().contains_key(id2) && id2 != id
                                ==> final(self).spec_devices()[id2]
                                == old(self).spec_devices()[id2]
                    })
                },
            },
    {
        let id = match self.editing {
            Some(id) => id,
            None => {
                return ;
            },
        };
        match self.devices.remove(&id) {
            Some(mut device) => {
                device.cursor_down();
                self.devices.insert(id, device);
                proof {
                    assert(final(self).spec_devices().dom() =~= old(self).spec_devices().dom());
                }
            },
            None => {},
        }
    }
}

} // verus!
