//! The standard drive loop of a processor, as a transition function.
//!
//! The loop waits for an event, processes it, and starts over. Where reading
//! and processing take time, each of the two steps may suspend. For a driver
//! that has to wait in between, the loop is written down here as what it does
//! next after each step: the driver carries out the action, waits for it to
//! finish, and comes back with what happened.

use vstd::prelude::*;

verus! {

/// What the loop has just come back from.
#[derive(Debug, PartialEq, Eq)]
pub enum Resumed<E> {
    /// Nothing yet: the loop is being started.
    Started,
    /// Reading has yielded this event.
    EventRead(E),
    /// Processing of the last event has finished.
    Processed,
}

/// What the loop does next.
#[derive(Debug, PartialEq, Eq)]
pub enum Action<E> {
    /// Wait for the next event.
    ReadEvent,
    /// Process this event.
    Process(E),
}

/// The action that follows `resumed`: an event that was read is processed,
/// and otherwise the next event is read.
pub open spec fn action_after<E>(resumed: Resumed<E>) -> Action<E> {
    match resumed {
        Resumed::EventRead(event) => Action::Process(event),
        Resumed::Started | Resumed::Processed => Action::ReadEvent,
    }
}

/// The next action of the loop after it has come back with `resumed`.
pub fn next_action<E>(resumed: Resumed<E>) -> (action: Action<E>)
    ensures
        action == action_after(resumed),
{
    match resumed {
        Resumed::EventRead(event) => Action::Process(event),
        Resumed::Started | Resumed::Processed => Action::ReadEvent,
    }
}

/// All actions of a loop that has come back with `resumed` and whose source
/// then yields `events`, one for each read, until the source has no more.
pub open spec fn actions_from<E>(resumed: Resumed<E>, events: Seq<E>) -> Seq<Action<E>>
    decreases events.len(), (if resumed is EventRead { 1nat } else { 0nat }),
{
    let action = action_after(resumed);
    match action {
        Action::Process(_) => seq![action] + actions_from(Resumed::Processed, events),
        Action::ReadEvent => if events.len() == 0 {
            seq![action]
        } else {
            seq![action] + actions_from(Resumed::EventRead(events[0]), events.drop_first())
        },
    }
}

/// The events that `actions` hand to processing, in the order of the actions.
pub open spec fn processed<E>(actions: Seq<Action<E>>) -> Seq<E>
    decreases actions.len(),
{
    if actions.len() == 0 {
        Seq::empty()
    } else {
        match actions[0] {
            Action::Process(event) => seq![event] + processed(actions.drop_first()),
            Action::ReadEvent => processed(actions.drop_first()),
        }
    }
}

/// However the loop was last resumed, it goes on to process the events that
/// it reads from then on, each once and in the order read; an event that it
/// has just read comes before them.
pub proof fn lemma_processes_what_it_reads<E>(resumed: Resumed<E>, events: Seq<E>)
    ensures
        processed(actions_from(resumed, events)) == (match resumed {
            Resumed::EventRead(event) => seq![event] + events,
            Resumed::Started | Resumed::Processed => events,
        }),
    decreases events.len(), (if resumed is EventRead { 1nat } else { 0nat }),
{
    let action = action_after(resumed);
    let actions = actions_from(resumed, events);
    match action {
        Action::Process(event) => {
            let tail = actions_from(Resumed::Processed, events);
            lemma_processes_what_it_reads(Resumed::<E>::Processed, events);
            assert(actions.drop_first() == tail);
        },
        Action::ReadEvent => {
            if events.len() == 0 {
                assert(processed(actions.drop_first()) == Seq::<E>::empty());
            } else {
                let tail = actions_from(Resumed::EventRead(events[0]), events.drop_first());
                lemma_processes_what_it_reads(Resumed::EventRead(events[0]), events.drop_first());
                assert(actions.drop_first() == tail);
            }
        },
    }
}

/// A loop that is started on a source that yields `events` processes exactly
/// these events: each of them once, none other, and in the order in which
/// they were read.
pub proof fn lemma_each_event_processed_once_in_order<E>(events: Seq<E>)
    ensures
        processed(actions_from(Resumed::Started, events)) == events,
{
    lemma_processes_what_it_reads(Resumed::<E>::Started, events);
}

} // verus!
