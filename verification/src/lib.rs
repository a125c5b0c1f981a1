//! Cooperative tasks for an input pipeline: devices that sense input and emit
//! events, processors that turn events into reports, and the pairwise join
//! that runs any fixed set of them side by side on one thread.
//!
//! A task is a resumable computation: each call of [`Task::poll`] lets it run
//! to its next suspension point. A single device or processor is a task of
//! one leaf; [`run_devices`] and [`run_processors`] join one more leaf to the
//! left of a task, so that a list of devices becomes a chain of joins that is
//! nested to the right. Nothing here allocates, and every composition is a
//! concrete nested type.
//!
//! What devices and processors do when they are resumed is theirs to say. The
//! contracts here say which of their methods a poll calls, on what and how
//! often, and so hold for every implementation.

pub mod device;
pub mod join;
pub mod poll;
pub mod processor;
pub mod run_loop;
pub mod schedule;
pub mod task;

pub use device::{run_device, run_devices, DeviceTask, InputDevice};
pub use join::{join, Join};
pub use poll::Poll;
pub use processor::{run_processor, run_processors, InputProcessor, ProcessorTask};
pub use run_loop::{next_action, Action, Resumed};
pub use task::{Leaf, LeafState, Task};
