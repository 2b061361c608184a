//! A mock emulation backend: a pure model of virtual-device creation and
//! event injection, for driving the engine in tests and observing what a
//! real backend would have received.

use vstd::prelude::*;

use crate::device::DeviceInfo;
use crate::device::VirtualDeviceId;
use crate::event::InputEvent;

verus! {

/// One recorded injection.
#[derive(Debug, Clone, Copy, PartialEq, Eq, Structural)]
pub struct InjectedEvent {
    pub device: VirtualDeviceId,
    pub event: InputEvent,
}

/// A mock input emulation backend. Devices are identified by ids drawn from
/// a counter starting at one; everything it is asked to do is recorded.
#[derive(Debug)]
pub struct MockEmulation {
    devices: Vec<(VirtualDeviceId, DeviceInfo)>,
    injected: Vec<InjectedEvent>,
    next_id: u32,
    shutdown: bool,
}

impl MockEmulation {
    /// The recorded devices, as id-description pairs in creation order,
    /// destroyed ones removed.
    pub closed spec fn devices_view(self) -> Seq<(VirtualDeviceId, DeviceInfo)> {
        self.devices@
    }

    /// The recorded injections, in order.
    pub closed spec fn injected_view(self) -> Seq<InjectedEvent> {
        self.injected@
    }

    /// Whether the backend has been shut down.
    pub closed spec fn is_shutdown_view(self) -> bool {
        self.shutdown
    }

    /// Create a new mock emulation backend.
    pub fn new() -> (r: Self)
        ensures
            r.devices_view() =~= Seq::<(VirtualDeviceId, DeviceInfo)>::empty(),
            r.injected_view() =~= Seq::<InjectedEvent>::empty(),
            !r.is_shutdown_view(),
    {
        MockEmulation { devices: Vec::new(), injected: Vec::new(), next_id: 1, shutdown: false }
    }

    /// Create a virtual device mirroring `info`, yielding a fresh id.
    pub fn create_device(&mut self, info: DeviceInfo) -> (r: VirtualDeviceId)
        ensures
            final(self).devices_view() == old(self).devices_view().push((r, info)),
            final(self).injected_view() == old(self).injected_view(),
            final(self).is_shutdown_view() == old(self).is_shutdown_view(),
    {
        let id = VirtualDeviceId(self.next_id);
        self.next_id = if self.next_id == u32::MAX {
            u32::MAX
        } else {
            self.next_id + 1
        };
        self.devices.push((id, info));
        id
    }

    /// Inject an event into a virtual device; the injection is recorded.
    pub fn inject(&mut self, device: VirtualDeviceId, event: InputEvent)
        ensures
            final(self).injected_view() == old(self).injected_view().push(
                InjectedEvent { device, event },
            ),
            final(self).devices_view() == old(self).devices_view(),
            final(self).is_shutdown_view() == old(self).is_shutdown_view(),
    {
        self.injected.push(InjectedEvent { device, event });
    }

    /// Destroy a virtual device: its entries leave the device list.
    pub fn destroy_device(&mut self, device: VirtualDeviceId)
        ensures
            final(self).devices_view() == old(self).devices_view().filter(
                |e: (VirtualDeviceId, DeviceInfo)| e.0 != device,
            ),
            final(self).injected_view() == old(self).injected_view(),
            final(self).is_shutdown_view() == old(self).is_shutdown_view(),
    {
        let ghost pred = |e: (VirtualDeviceId, DeviceInfo)| e.0 != device;
        let ghost orig = self.devices@;
        let mut i: usize = 0;
        let ghost p: int = 0;
        proof {
            assert(orig.take(0).filter(pred) =~= Seq::<(VirtualDeviceId, DeviceInfo)>::empty())
                by {
                reveal(Seq::filter);
            }
            assert(self.devices@ =~= orig.take(0).filter(pred) + orig.skip(0));
        }
        while i < self.devices.len()
            invariant
                0 <= p <= orig.len(),
                pred == (|e: (VirtualDeviceId, DeviceInfo)| e.0 != device),
                self.devices@ == orig.take(p).filter(pred) + orig.skip(p),
                i == orig.take(p).filter(pred).len(),
                *self == (MockEmulation { devices: self.devices, ..*old(self) }),
                orig == old(self).devices@,
            decreases orig.len() - p,
        {
            proof {
                assert(orig.skip(p).len() > 0);
                assert(self.devices@[i as int] == orig.skip(p)[0]);
                assert(orig.skip(p)[0] == orig[p]);
                let taken = orig.take(p + 1);
                assert(taken.drop_last() =~= orig.take(p));
                assert(taken.last() == orig[p]);
                assert(taken.filter(pred) == if pred(orig[p]) {
                    orig.take(p).filter(pred).push(orig[p])
                } else {
                    orig.take(p).filter(pred)
                }) by {
                    reveal(Seq::filter);
                }
            }
            if self.devices[i].0 != device {
                proof {
                    assert(orig.take(p + 1).filter(pred) + orig.skip(p + 1) =~= orig.take(
                        p,
                    ).filter(pred) + orig.skip(p));
                }
                i = i + 1;
            } else {
                let _ = self.devices.remove(i);
                proof {
                    assert(self.devices@ =~= orig.take(p + 1).filter(pred) + orig.skip(p + 1));
                }
            }
            proof {
                p = p + 1;
            }
        }
        proof {
            assert(orig.skip(p).len() == 0);
            assert(p == orig.len());
            assert(orig.take(p) =~= orig);
            assert(self.devices@ =~= orig.filter(pred));
        }
    }

    /// The number of live virtual devices.
    pub fn device_count(&self) -> (r: usize)
        ensures
            r == self.devices_view().len(),
    {
        self.devices.len()
    }

    /// The recorded injections, in order.
    pub fn injected_events(&self) -> (r: Vec<InjectedEvent>)
        ensures
            r@ == self.injected_view(),
    {
        let mut r: Vec<InjectedEvent> = Vec::new();
        let mut i: usize = 0;
        while i < self.injected.len()
            invariant
                i <= self.injected@.len(),
                r@ == self.injected@.take(i as int),
            decreases self.injected@.len() - i,
        {
            r.push(self.injected[i]);
            proof {
                assert(r@ =~= self.injected@.take(i + 1));
            }
            i = i + 1;
        }
        proof {
            assert(self.injected@.take(self.injected@.len() as int) =~= self.injected@);
        }
        r
    }

    /// Whether any live virtual device carries this id.
    pub fn has_device(&self, device: VirtualDeviceId) -> (r: bool)
        ensures
            r == exists|i: int|
                0 <= i < self.devices_view().len() && (#[trigger] self.devices_view()[i]).0
                    == device,
    {
        let mut i: usize = 0;
        while i < self.devices.len()
            invariant
                i <= self.devices@.len(),
                forall|j: int| 0 <= j < i ==> (#[trigger] self.devices@[j]).0 != device,
            decreases self.devices@.len() - i,
        {
            if self.devices[i].0 == device {
                proof {
                    assert((self.devices_view()[i as int]).0 == device);
                }
                return true;
            }
            i = i + 1;
        }
        proof {
            assert forall|j: int|
                0 <= j < self.devices_view().len() implies (#[trigger] self.devices_view()[j]).0
                != device by {
                assert(self.devices_view()[j] == self.devices@[j]);
            }
        }
        false
    }

    /// Shut down the backend.
    pub fn shutdown(&mut self)
        ensures
            final(self).is_shutdown_view(),
            final(self).devices_view() == old(self).devices_view(),
            final(self).injected_view() == old(self).injected_view(),
    {
        self.shutdown = true;
    }

    /// Whether shutdown was called.
    pub fn is_shutdown(&self) -> (r: bool)
        ensures
            r == self.is_shutdown_view(),
    {
        self.shutdown
    }
}

} // verus!
