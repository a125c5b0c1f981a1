//! Input devices: tasks that sense input and emit events.

use crate::join::{join, Join};
use crate::poll::Poll;
use crate::task::{Leaf, LeafState, Task};
use vstd::prelude::*;

verus! {

/// A source of input events, such as a key matrix or a rotary encoder.
///
/// A device owns its hardware. It is built once, handed to [`run_device`] or
/// [`run_devices`], and from then on driven by that one task alone.
///
/// No method reports a failure: a device deals with glitches and timeouts
/// itself, since nothing that runs it could react to them.
pub trait InputDevice {
    /// The events this device produces.
    type EventType;

    /// The events that the sink has taken from this device, oldest first.
    ///
    /// An implementation says here what it has handed on; where it says
    /// nothing, nothing is known of it.
    open spec fn sent(&self) -> Seq<Self::EventType> {
        arbitrary()
    }

    /// Resumes the sensing loop until it suspends again.
    ///
    /// Returns `Pending` when the loop waits for hardware, a timer or the
    /// sink, and `Ready` if the loop has ended. Whatever it has sensed in
    /// between it hands on through [`send_event`](InputDevice::send_event):
    /// events that the sink has taken stay taken, in their order.
    fn run(&mut self) -> (p: Poll<()>)
        ensures
            old(self).sent().is_prefix_of(final(self).sent()),
    ;

    /// Hands one event to the sink and returns once the sink has taken it.
    ///
    /// The event is never dropped: it comes after every event handed on
    /// before it, and before every event handed on later.
    fn send_event(&mut self, event: Self::EventType)
        ensures
            final(self).sent() == old(self).sent().push(event),
    ;
}

/// A borrowed device is a device: a task may run it and leave it with its
/// owner.
///
/// Each method is that of the device behind the reference, called once, and
/// the reference goes on to refer to that device.
impl<D: InputDevice> InputDevice for &mut D {
    type EventType = D::EventType;

    open spec fn sent(&self) -> Seq<D::EventType> {
        (**self).sent()
    }

    fn run(&mut self) -> (p: Poll<()>)
        ensures
            mut_ref_future(*final(self)) == mut_ref_future(*old(self)),
            exists|device: &mut D|
                *device == **old(self) && *final(device) == **final(self) && #[trigger] call_ensures(
                    D::run,
                    (device,),
                    p,
                ),
    {
        (**self).run()
    }

    fn send_event(&mut self, event: D::EventType)
        ensures
            mut_ref_future(*final(self)) == mut_ref_future(*old(self)),
            exists|device: &mut D|
                *device == **old(self) && *final(device) == **final(self) && #[trigger] call_ensures(
                    D::send_event,
                    (device, event),
                    (),
                ),
    {
        (**self).send_event(event)
    }
}

/// Events of one device reach the sink in the order in which the device
/// handed them on.
///
/// The sink holds `log` when the device sends `first`; between the two sends
/// and after them it only takes more. Then `first` lies before `second` in
/// all that the sink has taken in the end, each at the place where it was
/// put.
pub proof fn lemma_events_keep_their_order<E>(
    log: Seq<E>,
    first: E,
    between: Seq<E>,
    second: E,
    in_the_end: Seq<E>,
)
    requires
        log.push(first).is_prefix_of(between),
        between.push(second).is_prefix_of(in_the_end),
    ensures
        log.len() < between.len() < in_the_end.len(),
        in_the_end[log.len() as int] == first,
        in_the_end[between.len() as int] == second,
{
    let sent_first = log.push(first);
    let sent_second = between.push(second);
    assert(between[log.len() as int] == sent_first[log.len() as int]);
    assert(in_the_end[log.len() as int] == sent_second[log.len() as int]);
    assert(in_the_end[between.len() as int] == sent_second[between.len() as int]);
}

/// The run loop of one device as a task: a single leaf.
///
/// Once the loop has ended, the device is not resumed again.
pub struct DeviceTask<D: InputDevice> {
    device: D,
    leaf: Leaf,
}

impl<D: InputDevice> DeviceTask<D> {
    /// The device that the task runs.
    pub closed spec fn device(&self) -> D {
        self.device
    }

    /// How often the device has been resumed, and whether its loop has ended.
    pub closed spec fn state(&self) -> LeafState {
        self.leaf@
    }

    /// The device that the task runs.
    pub fn get_ref(&self) -> (device: &D)
        ensures
            *device == self.device(),
    {
        &self.device
    }

    /// Gives up the task and returns its device.
    pub fn into_inner(self) -> (device: D)
        ensures
            device == self.device(),
    {
        self.device
    }
}

impl<D: InputDevice> Task for DeviceTask<D> {
    /// One leaf, which carries the state of the task.
    open spec fn leaves(&self) -> Seq<LeafState> {
        seq![self.state()]
    }

    /// Resumes the device once with [`run`](InputDevice::run) and returns
    /// what it returned, unless the loop of the device has ended: then the
    /// device is left alone, and the task is `Ready`.
    fn poll(&mut self) -> (p: Poll<()>)
        ensures
            !old(self).state().done ==> final(self).state() == old(self).state().resumed(p),
            !old(self).state().done ==> exists|device: &mut D|
                *device == old(self).device() && *final(device) == final(self).device()
                    && #[trigger] call_ensures(D::run, (device,), p),
            old(self).device().sent().is_prefix_of(final(self).device().sent()),
    {
        proof {
            Leaf::lemma_single_leaf(old(self).state(), old(self).state());
        }
        if self.leaf.is_done() {
            return Poll::Ready(());
        }
        let ran = self.device.run();
        let p = self.leaf.record(ran);
        proof {
            Leaf::lemma_single_leaf(old(self).state(), self.state());
            if ran is Ready {
                assert(ran->Ready_0 == ());
            }
            assert(p == ran);
        }
        p
    }

    /// Whether the loop of the device has ended.
    fn is_done(&self) -> (b: bool) {
        proof {
            Leaf::lemma_single_leaf(self.state(), self.state());
        }
        self.leaf.is_done()
    }
}

/// The task of a single device: its own run loop, not yet resumed.
pub fn run_device<D: InputDevice>(device: D) -> (task: DeviceTask<D>)
    ensures
        task.device() == device,
        task.state() == LeafState::fresh(),
        task.leaves() == seq![LeafState::fresh()],
{
    DeviceTask { device, leaf: Leaf::new() }
}

/// The task of several devices: the run loop of `first`, joined with the task
/// `rest` of the others.
pub fn run_devices<D: InputDevice, R: Task>(first: D, rest: R) -> (task: Join<DeviceTask<D>, R>)
    ensures
        task.first().device() == first,
        task.first().state() == LeafState::fresh(),
        task.rest() == rest,
        task.leaves() == seq![LeafState::fresh()] + rest.leaves(),
{
    join(run_device(first), rest)
}

} // verus!
