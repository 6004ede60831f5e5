//! The virtual output device: what it announces, and the task that alone
//! writes to it.
//!
//! Producers send events into a bounded queue and wait while it is full.
//! The emitter takes them out one at a time and writes each to the device
//! before it takes the next, so events leave in the order they arrived. A
//! write that fails ends the emitter for good.
use crate::codes::REL_HWHEEL_HI_RES;
use crate::event::InputEvent;
use vstd::prelude::*;

verus! {

/// The name the virtual device bears.
pub const DEVICE_NAME: &'static str = "macrokey virtual device";

/// How many events the queue to the emitter holds.
pub const CHANNEL_CAPACITY: usize = 32;

/// The highest key code the virtual device announces: keyboard keys, mouse
/// buttons and gamepad keys.
pub const LAST_KEY: u16 = 0x2e7;

/// Where the emitter stands.
#[derive(Clone, Copy, Debug, PartialEq, Eq, Structural)]
pub enum Emitter {
    /// Waiting for the next event, or writing one.
    Running,
    /// Every producer is gone: the emitter ended cleanly.
    Closed,
    /// A write failed: the emitter ended and nothing is written any more.
    Failed,
}

/// What the emitter task reports.
#[derive(Clone, Copy, Debug, PartialEq, Eq, Structural)]
pub enum EmitterEvent {
    /// The queue handed out this event.
    Received(InputEvent),
    /// The queue is empty and every producer is gone.
    ChannelClosed,
    /// The device rejected the last write.
    EmitFailed,
}

/// What the emitter task is to do next.
#[derive(Clone, Copy, Debug, PartialEq, Eq, Structural)]
pub enum EmitterAction {
    /// Write this event to the device, then take the next from the queue.
    Emit(InputEvent),
    /// End the task.
    Exit,
    /// End the task and report the failure.
    Abort,
}

impl Emitter {
    /// The state and the action that follow a report.
    pub open spec fn after(self, event: EmitterEvent) -> (Emitter, EmitterAction) {
        match self {
            Emitter::Running => match event {
                EmitterEvent::Received(ev) => (Emitter::Running, EmitterAction::Emit(ev)),
                EmitterEvent::ChannelClosed => (Emitter::Closed, EmitterAction::Exit),
                EmitterEvent::EmitFailed => (Emitter::Failed, EmitterAction::Abort),
            },
            Emitter::Closed => (Emitter::Closed, EmitterAction::Exit),
            Emitter::Failed => (Emitter::Failed, EmitterAction::Abort),
        }
    }

    /// The events written over a run of reports, in the order written.
    pub open spec fn emitted(self, events: Seq<EmitterEvent>) -> Seq<InputEvent>
        decreases events.len(),
    {
        if events.len() == 0 {
            Seq::empty()
        } else {
            let (next, action) = self.after(events.first());
            match action {
                EmitterAction::Emit(ev) => seq![ev] + next.emitted(events.drop_first()),
                _ => next.emitted(events.drop_first()),
            }
        }
    }

    pub fn new() -> (emitter: Emitter)
        ensures
            emitter == Emitter::Running,
    {
        Emitter::Running
    }

    /// Takes one report and returns what to do next. Once ended, the
    /// emitter writes nothing, whatever is reported.
    pub fn step(&mut self, event: EmitterEvent) -> (action: EmitterAction)
        ensures
            (*final(self), action) == old(self).after(event),
    {
        let (next, action) = match *self {
            Emitter::Running => match event {
                EmitterEvent::Received(ev) => (Emitter::Running, EmitterAction::Emit(ev)),
                EmitterEvent::ChannelClosed => (Emitter::Closed, EmitterAction::Exit),
                EmitterEvent::EmitFailed => (Emitter::Failed, EmitterAction::Abort),
            },
            Emitter::Closed => (Emitter::Closed, EmitterAction::Exit),
            Emitter::Failed => (Emitter::Failed, EmitterAction::Abort),
        };
        *self = next;
        action
    }
}

/// While the emitter runs, what it writes is what it received, event for
/// event and in the order of arrival.
pub proof fn lemma_emits_in_arrival_order(received: Seq<InputEvent>)
    ensures
        Emitter::Running.emitted(received.map_values(|ev: InputEvent| EmitterEvent::Received(ev)))
            == received,
    decreases received.len(),
{
    let reports = received.map_values(|ev: InputEvent| EmitterEvent::Received(ev));
    if received.len() > 0 {
        lemma_emits_in_arrival_order(received.drop_first());
        assert(reports.drop_first() =~= received.drop_first().map_values(
            |ev: InputEvent| EmitterEvent::Received(ev),
        ));
        assert(seq![received.first()] + received.drop_first() =~= received);
    }
}

/// Once ended, the emitter writes nothing more.
pub proof fn lemma_ended_emitter_is_silent(emitter: Emitter, events: Seq<EmitterEvent>)
    requires
        emitter != Emitter::Running,
    ensures
        emitter.emitted(events) == Seq::<InputEvent>::empty(),
    decreases events.len(),
{
    if events.len() > 0 {
        lemma_ended_emitter_is_silent(emitter.after(events.first()).0, events.drop_first());
    }
}

/// The codes from 0 to `last`, in order.
fn codes_up_to(last: u16) -> (codes: Vec<u16>)
    ensures
        codes@ == Seq::new(last as nat + 1, |i: int| i as u16),
{
    let mut codes: Vec<u16> = Vec::new();
    let mut code: u16 = 0;
    while code < last
        invariant
            code <= last,
            codes@ == Seq::new(code as nat, |i: int| i as u16),
        decreases last - code,
    {
        codes.push(code);
        code += 1;
        assert(codes@ =~= Seq::new(code as nat, |i: int| i as u16));
    }
    codes.push(last);
    assert(codes@ =~= Seq::new(last as nat + 1, |i: int| i as u16));
    codes
}

/// The key codes the virtual device announces: every code up to
/// `LAST_KEY`.
pub fn keys() -> (codes: Vec<u16>)
    ensures
        codes@ == Seq::new(LAST_KEY as nat + 1, |i: int| i as u16),
{
    codes_up_to(LAST_KEY)
}

/// The relative axes the virtual device announces: every axis up to the
/// high-resolution horizontal wheel.
pub fn relative_axes() -> (codes: Vec<u16>)
    ensures
        codes@ == Seq::new(REL_HWHEEL_HI_RES as nat + 1, |i: int| i as u16),
{
    codes_up_to(REL_HWHEEL_HI_RES)
}

} // verus!
