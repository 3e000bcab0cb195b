//! The decisions of the dispatch loop.
//!
//! The loop itself runs outside this library: it reads the clock, calls the
//! generators, and sends and receives on the MAVLink transport. What to do
//! next, and what an incoming message does to the schedule, is decided here.

use crate::scheduler::Schedule;
use crate::scheduler::ScheduleError;
use crate::scheduler::ScheduleView;
use crate::translator::lookup;
use crate::translator::Generator;
use crate::translator::HEARTBEAT_ID;
use vstd::prelude::*;

verus! {

/// What arrived from the ground station, as far as the loop reads it.
#[derive(Clone, Copy, Debug, PartialEq, Eq, Structural)]
pub enum Inbound {
    /// `HEARTBEAT`.
    Heartbeat,
    /// `MESSAGE_INTERVAL`: the ground station asks for a message every
    /// `interval_us` microseconds.
    MessageInterval { message_id: u16, interval_us: i32 },
    /// `DATA_STREAM`.
    DataStream,
    /// Any other message.
    Other,
}

/// How a receive with a deadline ended.
#[derive(Clone, Copy, Debug, PartialEq, Eq, Structural)]
pub enum Received {
    /// A message arrived.
    Message(Inbound),
    /// The deadline passed with nothing to receive.
    WouldBlock,
    /// The transport failed for good.
    Failed,
}

/// What the loop has to do next.
#[derive(Clone, Copy, Debug, PartialEq, Eq, Structural)]
pub enum Step {
    /// Call this generator and send what it makes.
    Generate(Generator),
    /// A task is due that no generator is registered for: warn.
    Unregistered(u32),
    /// Nothing is due: receive with a short deadline.
    Receive,
}

/// What came of a receive.
#[derive(Clone, Copy, Debug, PartialEq, Eq, Structural)]
pub enum Reaction {
    /// Nothing arrived, or nothing that calls for action.
    Ignore,
    /// The message is to be reported in the log.
    Log,
    /// The schedule now emits the message at the frequency asked for; a
    /// frequency of zero removed it.
    Scheduled { message_id: u32, frequency: u32 },
    /// The message does not fit the schedule at the frequency asked for;
    /// the schedule is as it was. Warn.
    Rejected { message_id: u32, frequency: u32 },
    /// The transport is gone: leave the loop.
    Fatal,
}

/// The frequency in hertz that an interval in microseconds asks for:
/// `1_000_000 / interval_us`, rounded to the nearest integer, halves
/// upwards. A negative interval asks for none, which is frequency zero; an
/// interval of zero asks for more than any schedule holds.
pub open spec fn frequency_spec(interval_us: int) -> int {
    if interval_us < 0 {
        0
    } else if interval_us == 0 {
        u32::MAX as int
    } else {
        (2_000_000 + interval_us) / (2 * interval_us)
    }
}

/// Computes the frequency that an interval asks for. For a positive
/// interval the result is the frequency whose period is nearest: it
/// differs from `1_000_000 / interval_us` by at most one half.
pub fn frequency_of(interval_us: i32) -> (frequency: u32)
    ensures
        frequency == frequency_spec(interval_us as int),
        interval_us > 0 ==> (2 * frequency - 1) * interval_us <= 2_000_000 < (2 * frequency + 1)
            * interval_us,
{
    if interval_us < 0 {
        0
    } else if interval_us == 0 {
        u32::MAX
    } else {
        let interval = interval_us as u64;
        let rounded = (2_000_000 + interval) / (2 * interval);
        assert(rounded <= 2_000_000 + interval && (2 * rounded - 1) * interval <= 2_000_000 < (2
            * rounded + 1) * interval) by (nonlinear_arith)
            requires
                rounded == (2_000_000 + interval) / (2 * interval),
                interval > 0,
        ;
        rounded as u32
    }
}

/// The state of the dispatch loop: the schedule of MAVLink message ids.
pub struct Dispatcher {
    schedule: Schedule<u32>,
}

impl Dispatcher {
    /// The schedule of the dispatcher as a value.
    pub closed spec fn view(&self) -> ScheduleView<u32> {
        self.schedule@
    }

    /// What `poll` decides: the state after and the step to take.
    pub open spec fn poll_spec(state: ScheduleView<u32>, now: nat) -> (
        ScheduleView<u32>,
        Step,
    ) {
        let next = state.next(now);
        (
            next.0,
            match next.1 {
                Some(id) => match crate::translator::registered(id) {
                    Some(generator) => Step::Generate(generator),
                    None => Step::Unregistered(id),
                },
                None => Step::Receive,
            },
        )
    }

    /// What `handle` decides: the state after and the reaction.
    pub open spec fn handle_spec(state: ScheduleView<u32>, received: Received) -> (
        ScheduleView<u32>,
        Reaction,
    ) {
        match received {
            Received::Message(Inbound::MessageInterval { message_id, interval_us }) => {
                let frequency = frequency_spec(interval_us as int) as u32;
                let inserted = state.insert(frequency as nat, message_id as u32);
                (
                    inserted.0,
                    if inserted.1 is Ok {
                        Reaction::Scheduled { message_id: message_id as u32, frequency }
                    } else {
                        Reaction::Rejected { message_id: message_id as u32, frequency }
                    },
                )
            },
            Received::Message(Inbound::DataStream) => (state, Reaction::Log),
            Received::Message(Inbound::Heartbeat) => (state, Reaction::Ignore),
            Received::Message(Inbound::Other) => (state, Reaction::Ignore),
            Received::WouldBlock => (state, Reaction::Ignore),
            Received::Failed => (state, Reaction::Fatal),
        }
    }

    /// A dispatcher over a schedule of `size` slots that measures time from
    /// the clock reading `now` and emits the heartbeat once per second.
    /// Without a slot for the heartbeat there is no dispatcher.
    pub fn new(size: usize, now: u64) -> (dispatcher: Result<Dispatcher, ScheduleError>)
        requires
            size <= u32::MAX,
        ensures
            size == 0 <==> dispatcher is Err,
            dispatcher matches Ok(d) ==> {
                &&& d@.slots.len() == size
                &&& d@.slots[0] == Some(HEARTBEAT_ID)
                &&& forall|j: int| 1 <= j < size ==> d@.slots[j] is None
                &&& d@.last_frame == 0
                &&& d@.time_zero == now
                &&& d@.duration == crate::scheduler::MAJOR_FRAME_US
            },
    {
        let mut schedule: Schedule<u32> = Schedule::new(size);
        schedule.restart(now);
        let ghost empty = schedule@;
        proof {
            if size > 0 {
                crate::scheduler::lemma_insert_into_empty(empty, 1, HEARTBEAT_ID);
                crate::scheduler::lemma_pattern_gaps(size as nat, 1, 0);
                assert forall|j: int| 1 <= j < size implies !crate::scheduler::in_pattern(
                    size as nat,
                    1,
                    j,
                ) by {
                    if crate::scheduler::in_pattern(size as nat, 1, j) {
                        let i = choose|i: nat|
                            i < 1 && #[trigger] crate::scheduler::pattern_slot(size as nat, 1, i)
                                == j;
                        assert(i == 0);
                    }
                }
                assert(crate::scheduler::in_pattern(size as nat, 1, 0)) by {
                    assert(crate::scheduler::pattern_slot(size as nat, 1, 0) == 0);
                }
            } else {
                crate::scheduler::lemma_never_fits(empty.slots, 1, 0);
            }
        }
        match schedule.insert(1, HEARTBEAT_ID) {
            Ok(()) => Ok(Dispatcher { schedule }),
            Err(e) => Err(e),
        }
    }

    /// The schedule of the dispatcher.
    pub fn schedule(&self) -> (schedule: &Schedule<u32>)
        ensures
            schedule@ == self@,
    {
        &self.schedule
    }

    /// Decides the next step at clock reading `now`, in microseconds: the
    /// generator of the next task that is due, a warning where the task has
    /// no generator, or a receive where nothing is due.
    pub fn poll(&mut self, now: u64) -> (step: Step)
        ensures
            (final(self)@, step) == Self::poll_spec(old(self)@, now as nat),
    {
        match self.schedule.next(now) {
            Some(id) => match lookup(id) {
                Some(generator) => Step::Generate(generator),
                None => Step::Unregistered(id),
            },
            None => Step::Receive,
        }
    }

    /// Reacts to what a receive brought. `MESSAGE_INTERVAL` programs the
    /// schedule; a request that does not fit leaves it unchanged. A failed
    /// transport is fatal. Everything else leaves the schedule alone.
    pub fn handle(&mut self, received: Received) -> (reaction: Reaction)
        ensures
            (final(self)@, reaction) == Self::handle_spec(old(self)@, received),
    {
        match received {
            Received::Message(Inbound::MessageInterval { message_id, interval_us }) => {
                let frequency = frequency_of(interval_us);
                match self.schedule.insert(frequency, message_id as u32) {
                    Ok(()) => Reaction::Scheduled { message_id: message_id as u32, frequency },
                    Err(_) => Reaction::Rejected { message_id: message_id as u32, frequency },
                }
            },
            Received::Message(Inbound::DataStream) => Reaction::Log,
            Received::Message(Inbound::Heartbeat) => Reaction::Ignore,
            Received::Message(Inbound::Other) => Reaction::Ignore,
            Received::WouldBlock => Reaction::Ignore,
            Received::Failed => Reaction::Fatal,
        }
    }
}

} // verus!
