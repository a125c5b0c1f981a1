use input_device::{join, run_device, run_devices, InputDevice, Leaf, Poll, Task};
use std::cell::RefCell;
use std::rc::Rc;

type Sink = Rc<RefCell<Vec<u8>>>;

/// A device that sends its id on its `emit_on`-th turn and ends its loop on
/// its `finish_on`-th turn (never, if that is 0).
struct Mock {
    id: u8,
    turns: u32,
    emit_on: u32,
    finish_on: u32,
    sink: Sink,
}

impl Mock {
    fn new(id: u8, emit_on: u32, finish_on: u32, sink: &Sink) -> Mock {
        Mock { id, turns: 0, emit_on, finish_on, sink: sink.clone() }
    }
}

impl InputDevice for Mock {
    type EventType = u8;

    fn run(&mut self) -> Poll<()> {
        self.turns += 1;
        if self.turns == self.emit_on {
            self.send_event(self.id);
        }
        if self.finish_on != 0 && self.turns >= self.finish_on {
            Poll::Ready(())
        } else {
            Poll::Pending
        }
    }

    fn send_event(&mut self, event: u8) {
        self.sink.borrow_mut().push(event);
    }
}

/// A device that sends a fixed list of events, one on each turn.
struct Burst {
    events: Vec<u16>,
    next: usize,
    sink: Rc<RefCell<Vec<u16>>>,
}

impl InputDevice for Burst {
    type EventType = u16;

    fn run(&mut self) -> Poll<()> {
        if self.next < self.events.len() {
            let event = self.events[self.next];
            self.next += 1;
            self.send_event(event);
        }
        Poll::Pending
    }

    fn send_event(&mut self, event: u16) {
        self.sink.borrow_mut().push(event);
    }
}

fn sink() -> Sink {
    Rc::new(RefCell::new(Vec::new()))
}

#[test]
fn two_devices_have_both_sent_after_five_polls() {
    let sink = sink();
    let d1 = Mock::new(1, 2, 0, &sink);
    let d2 = Mock::new(2, 5, 0, &sink);
    let mut task = run_devices(d1, run_device(d2));
    let mut sent_after = Vec::new();
    for _ in 0..5 {
        assert_eq!(task.poll(), Poll::Pending);
        sent_after.push(sink.borrow().clone());
    }
    assert_eq!(sent_after[0], Vec::<u8>::new());
    assert_eq!(sent_after[1], vec![1]);
    assert_eq!(sent_after[3], vec![1]);
    assert_eq!(sent_after[4], vec![1, 2]);
    assert_eq!(*sink.borrow(), vec![1, 2]);
}

#[test]
fn two_devices_that_emit_on_the_same_poll_send_first_before_rest() {
    let sink = sink();
    let d1 = Mock::new(1, 3, 0, &sink);
    let d2 = Mock::new(2, 3, 0, &sink);
    let mut task = run_devices(d1, run_device(d2));
    for _ in 0..3 {
        assert_eq!(task.poll(), Poll::Pending);
    }
    assert_eq!(*sink.borrow(), vec![1, 2]);
}

#[test]
fn eight_devices_each_get_one_turn_per_poll() {
    let sink = sink();
    let mut d: Vec<Mock> = (1..=8).map(|id| Mock::new(id, 1, 0, &sink)).collect();
    {
        let mut it = d.iter_mut();
        let mut task = run_devices(
            it.next().unwrap(),
            run_devices(
                it.next().unwrap(),
                run_devices(
                    it.next().unwrap(),
                    run_devices(
                        it.next().unwrap(),
                        run_devices(
                            it.next().unwrap(),
                            run_devices(
                                it.next().unwrap(),
                                run_devices(it.next().unwrap(), run_device(it.next().unwrap())),
                            ),
                        ),
                    ),
                ),
            ),
        );
        for _ in 0..3 {
            assert_eq!(task.poll(), Poll::Pending);
        }
        assert!(!task.is_done());
    }
    for device in &d {
        assert_eq!(device.turns, 3);
    }
    assert_eq!(*sink.borrow(), vec![1, 2, 3, 4, 5, 6, 7, 8]);
}

#[test]
fn single_device_task_behaves_as_the_device_alone() {
    let sink_alone = sink();
    let sink_task = sink();
    let mut alone = Mock::new(7, 2, 4, &sink_alone);
    let mut task = run_device(Mock::new(7, 2, 4, &sink_task));
    for _ in 0..4 {
        assert_eq!(task.poll(), alone.run());
        assert_eq!(task.get_ref().turns, alone.turns);
        assert_eq!(*sink_task.borrow(), *sink_alone.borrow());
    }
    assert!(task.is_done());
    assert_eq!(task.into_inner().turns, 4);
}

#[test]
fn finite_task_finishes_on_schedule_beside_endless_one() {
    let sink = sink();
    let k = 3;
    let mut t1 = Mock::new(1, 0, k, &sink);
    let mut t2 = Mock::new(2, 0, 0, &sink);
    {
        let mut task = run_devices(&mut t1, run_device(&mut t2));
        for j in 1..=10u32 {
            assert_eq!(task.poll(), Poll::Pending);
            assert!(!task.is_done());
            let (first, rest) = task.parts();
            assert_eq!(first.is_done(), j >= k);
            assert_eq!(first.get_ref().turns, j.min(k));
            assert!(!rest.is_done());
            assert_eq!(rest.get_ref().turns, j);
        }
    }
    assert_eq!(t1.turns, 3);
    assert_eq!(t2.turns, 10);
}

#[test]
fn join_is_ready_once_both_sides_are() {
    let sink = sink();
    let mut task = run_devices(Mock::new(1, 0, 2, &sink), run_device(Mock::new(2, 0, 4, &sink)));
    assert_eq!(task.poll(), Poll::Pending);
    assert_eq!(task.poll(), Poll::Pending);
    assert_eq!(task.poll(), Poll::Pending);
    assert!(!task.is_done());
    assert_eq!(task.poll(), Poll::Ready(()));
    assert!(task.is_done());
    let (first, rest) = task.into_parts();
    assert_eq!(first.into_inner().turns, 2);
    assert_eq!(rest.into_inner().turns, 4);
}

#[test]
fn join_is_ready_once_both_sides_are_rest_first() {
    let sink = sink();
    let mut task = run_devices(Mock::new(1, 0, 3, &sink), run_device(Mock::new(2, 0, 1, &sink)));
    assert_eq!(task.poll(), Poll::Pending);
    assert_eq!(task.poll(), Poll::Pending);
    assert_eq!(task.poll(), Poll::Ready(()));
    let (first, rest) = task.into_parts();
    assert_eq!(first.into_inner().turns, 3);
    assert_eq!(rest.into_inner().turns, 1);
}

#[test]
fn finished_task_is_not_resumed_again() {
    let sink = sink();
    let mut task = run_device(Mock::new(1, 0, 2, &sink));
    assert!(!task.is_done());
    assert_eq!(task.poll(), Poll::Pending);
    assert_eq!(task.poll(), Poll::Ready(()));
    assert_eq!(task.poll(), Poll::Ready(()));
    assert_eq!(task.poll(), Poll::Ready(()));
    assert_eq!(task.get_ref().turns, 2);

    let mut pair = run_devices(Mock::new(1, 0, 1, &sink), run_device(Mock::new(2, 0, 1, &sink)));
    assert_eq!(pair.poll(), Poll::Ready(()));
    assert_eq!(pair.poll(), Poll::Ready(()));
    let (first, rest) = pair.into_parts();
    assert_eq!(first.into_inner().turns, 1);
    assert_eq!(rest.into_inner().turns, 1);
}

#[test]
fn device_events_arrive_in_emission_order() {
    let log = Rc::new(RefCell::new(Vec::new()));
    let mut device = Burst { events: vec![10, 20, 30], next: 0, sink: log.clone() };
    device.send_event(1);
    device.send_event(2);
    assert_eq!(*log.borrow(), vec![1, 2]);
    let mut task = run_device(device);
    for _ in 0..5 {
        assert_eq!(task.poll(), Poll::Pending);
    }
    assert_eq!(*log.borrow(), vec![1, 2, 10, 20, 30]);
}

#[test]
fn devices_of_different_event_types_compose() {
    let bytes = sink();
    let words = Rc::new(RefCell::new(Vec::new()));
    let matrix = Mock::new(9, 1, 0, &bytes);
    let encoder = Burst { events: vec![300, 400], next: 0, sink: words.clone() };
    let mut task = run_devices(matrix, run_device(encoder));
    assert_eq!(task.poll(), Poll::Pending);
    assert_eq!(task.poll(), Poll::Pending);
    assert_eq!(*bytes.borrow(), vec![9]);
    assert_eq!(*words.borrow(), vec![300, 400]);
}

#[test]
fn poll_says_whether_it_is_ready() {
    assert!(Poll::Ready(5).is_ready());
    assert!(!Poll::Ready(5).is_pending());
    assert!(Poll::<u8>::Pending.is_pending());
    assert!(!Poll::<u8>::Pending.is_ready());
}

#[test]
fn two_outcomes_are_ready_only_together() {
    assert_eq!(Poll::Ready(()).and(Poll::Ready(())), Poll::Ready(()));
    assert_eq!(Poll::Ready(()).and(Poll::Pending), Poll::Pending);
    assert_eq!(Poll::Pending.and(Poll::Ready(())), Poll::Pending);
    assert_eq!(Poll::Pending.and(Poll::Pending), Poll::Pending);
}

#[test]
fn leaf_record_follows_its_turns() {
    let mut leaf = Leaf::new();
    assert!(!leaf.is_done());
    assert_eq!(leaf.record(Poll::Pending), Poll::Pending);
    assert!(!leaf.is_done());
    assert_eq!(leaf.record(Poll::Ready(())), Poll::Ready(()));
    assert!(leaf.is_done());
}

#[test]
fn finished_leaf_stays_finished() {
    let mut leaf = Leaf::new();
    assert_eq!(leaf.record(Poll::Ready(())), Poll::Ready(()));
    assert_eq!(leaf.record(Poll::Pending), Poll::Ready(()));
    assert!(leaf.is_done());
}

#[test]
fn joins_nest_on_either_side() {
    let sink = sink();
    let left = run_devices(Mock::new(1, 1, 0, &sink), run_device(Mock::new(2, 1, 0, &sink)));
    let right = run_devices(Mock::new(3, 1, 0, &sink), run_device(Mock::new(4, 1, 0, &sink)));
    let mut task = join(left, right);
    assert_eq!(task.poll(), Poll::Pending);
    assert_eq!(*sink.borrow(), vec![1, 2, 3, 4]);
    let (left, right) = task.parts();
    assert_eq!(left.parts().0.get_ref().turns, 1);
    assert_eq!(right.parts().1.get_ref().turns, 1);
}
