//! Input processors: tasks that consume events and emit reports.

use crate::join::{join, Join};
use crate::poll::Poll;
use crate::task::{Leaf, LeafState, Task};
use vstd::prelude::*;

verus! {

/// A consumer of events that turns them into reports for the host.
///
/// A processor owns the reading end of an event source and the writing end of
/// a report sink. Like a device it is built once and driven by one task.
///
/// No method reports a failure.
pub trait InputProcessor: Sized {
    /// The events this processor receives.
    type EventType;

    /// The reports this processor sends: values that the transport can encode.
    type ReportType;

    /// Turns one event into reports and sends each of them with
    /// [`send_report`](InputProcessor::send_report).
    ///
    /// One event may give none, one or several reports.
    fn process(&mut self, event: Self::EventType);

    /// Takes the next event from the source: `Ready` with the event if there
    /// is one, `Pending` if the source is empty for now.
    fn read_event(&self) -> Poll<Self::EventType>;

    /// Hands one report to the sink and returns once the sink has taken it.
    fn send_report(&self, report: Self::ReportType);

    /// Resumes the drive loop until it suspends again.
    ///
    /// The standard loop reads an event, processes it, and starts over; it
    /// never ends. Each call reads once: an event that was read is handed to
    /// `process`, once, before the loop suspends, and if there was none,
    /// nothing is done. So each call hands at most one event on, and the
    /// tasks joined with this one get their turn as well.
    ///
    /// An implementation may put a loop of its own in its place, for instance
    /// to gather several events into one report.
    fn run(&mut self) -> (p: Poll<()>)
        default_ensures
            p == Poll::<()>::Pending,
            exists|polled: Poll<Self::EventType>|
                #[trigger] call_ensures(Self::read_event, (&*old(self),), polled) && (match polled {
                    Poll::Ready(event) => exists|processor: &mut Self|
                        *processor == *old(self) && *final(processor) == *final(self)
                            && #[trigger] call_ensures(Self::process, (processor, event), ()),
                    Poll::Pending => *final(self) == *old(self),
                }),
    {
        if let Poll::Ready(event) = Self::read_event(self) {
            self.process(event);
        }
        Poll::Pending
    }
}

/// A borrowed processor is a processor: a task may run it and leave it with
/// its owner.
///
/// Each method is that of the processor behind the reference, called once,
/// and the reference goes on to refer to that processor.
impl<P: InputProcessor> InputProcessor for &mut P {
    type EventType = P::EventType;

    type ReportType = P::ReportType;

    fn process(&mut self, event: P::EventType)
        ensures
            mut_ref_future(*final(self)) == mut_ref_future(*old(self)),
            exists|processor: &mut P|
                *processor == **old(self) && *final(processor) == **final(self)
                    && #[trigger] call_ensures(P::process, (processor, event), ()),
    {
        (**self).process(event)
    }

    fn read_event(&self) -> (polled: Poll<P::EventType>)
        ensures
            call_ensures(P::read_event, (&mut_ref_current(*self),), polled),
    {
        (**self).read_event()
    }

    fn send_report(&self, report: P::ReportType)
        ensures
            call_ensures(P::send_report, (&mut_ref_current(*self), report), ()),
    {
        (**self).send_report(report)
    }

    fn run(&mut self) -> (p: Poll<()>)
        ensures
            mut_ref_future(*final(self)) == mut_ref_future(*old(self)),
            exists|processor: &mut P|
                *processor == **old(self) && *final(processor) == **final(self)
                    && #[trigger] call_ensures(P::run, (processor,), p),
    {
        (**self).run()
    }
}

/// The run loop of one processor as a task: a single leaf.
///
/// Should the loop end, the processor is not resumed again.
pub struct ProcessorTask<P: InputProcessor> {
    processor: P,
    leaf: Leaf,
}

impl<P: InputProcessor> ProcessorTask<P> {
    /// The processor that the task runs.
    pub closed spec fn processor(&self) -> P {
        self.processor
    }

    /// How often the processor has been resumed, and whether its loop has
    /// ended.
    pub closed spec fn state(&self) -> LeafState {
        self.leaf@
    }

    /// The processor that the task runs.
    pub fn get_ref(&self) -> (processor: &P)
        ensures
            *processor == self.processor(),
    {
        &self.processor
    }

    /// Gives up the task and returns its processor.
    pub fn into_inner(self) -> (processor: P)
        ensures
            processor == self.processor(),
    {
        self.processor
    }
}

impl<P: InputProcessor> Task for ProcessorTask<P> {
    /// One leaf, which carries the state of the task.
    open spec fn leaves(&self) -> Seq<LeafState> {
        seq![self.state()]
    }

    /// Resumes the processor once with [`run`](InputProcessor::run) and
    /// returns what it returned, unless the loop of the processor has ended:
    /// then the processor is left alone, and the task is `Ready`.
    fn poll(&mut self) -> (p: Poll<()>)
        ensures
            !old(self).state().done ==> final(self).state() == old(self).state().resumed(p),
            !old(self).state().done ==> exists|processor: &mut P|
                *processor == old(self).processor() && *final(processor) == final(self).processor()
                    && #[trigger] call_ensures(P::run, (processor,), p),
    {
        proof {
            Leaf::lemma_single_leaf(old(self).state(), old(self).state());
        }
        if self.leaf.is_done() {
            return Poll::Ready(());
        }
        let ran = self.processor.run();
        let p = self.leaf.record(ran);
        proof {
            Leaf::lemma_single_leaf(old(self).state(), self.state());
            if ran is Ready {
                assert(ran->Ready_0 == ());
            }
            assert(p == ran);
        }
        p
    }

    /// Whether the loop of the processor has ended.
    fn is_done(&self) -> (b: bool) {
        proof {
            Leaf::lemma_single_leaf(self.state(), self.state());
        }
        self.leaf.is_done()
    }
}

/// The task of a single processor: its own run loop, not yet resumed.
pub fn run_processor<P: InputProcessor>(processor: P) -> (task: ProcessorTask<P>)
    ensures
        task.processor() == processor,
        task.state() == LeafState::fresh(),
        task.leaves() == seq![LeafState::fresh()],
{
    ProcessorTask { processor, leaf: Leaf::new() }
}

/// The task of several processors: the run loop of `first`, joined with the
/// task `rest` of the others.
pub fn run_processors<P: InputProcessor, R: Task>(first: P, rest: R) -> (task: Join<
    ProcessorTask<P>,
    R,
>)
    ensures
        task.first().processor() == first,
        task.first().state() == LeafState::fresh(),
        task.rest() == rest,
        task.leaves() == seq![LeafState::fresh()] + rest.leaves(),
{
    join(run_processor(first), rest)
}

} // verus!
