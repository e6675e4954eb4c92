//! A response that is run round by round on behalf of a host.
use vstd::prelude::*;

use crate::response::ResponseFrame;

verus! {

/// What a session has at hand: the machine of its response, unless a round has
/// it, and the frames of a round, where one runs.
#[derive(Clone, Copy, Debug, PartialEq, Eq, Structural)]
pub struct SessionSlots {
    pub machine: bool,
    pub frames: bool,
}

/// What a session refuses.
#[derive(Clone, Copy, Debug, PartialEq, Eq, Structural)]
pub enum SessionFault {
    Executing,
    Streaming,
    NotStreaming,
}

/// What is said of what a session refuses.
pub open spec fn fault_text(fault: SessionFault) -> Seq<char> {
    match fault {
        SessionFault::Executing => "response session is already executing"@,
        SessionFault::Streaming => "response session already has a running stream"@,
        SessionFault::NotStreaming => "response session has no running stream"@,
    }
}

impl SessionFault {
    /// What is said of what a session refuses.
    pub fn message(&self) -> (text: &'static str)
        ensures
            text@ == fault_text(*self),
    {
        match self {
            SessionFault::Executing => "response session is already executing",
            SessionFault::Streaming => "response session already has a running stream",
            SessionFault::NotStreaming => "response session has no running stream",
        }
    }
}

/// A session after its machine was asked for.
pub open spec fn machine_taken(slots: SessionSlots) -> (SessionSlots, Result<(), SessionFault>) {
    if slots.machine {
        (SessionSlots { machine: false, ..slots }, Ok(()))
    } else {
        (slots, Err(SessionFault::Executing))
    }
}

/// A session after a round with frames was asked for. The machine is taken first.
pub open spec fn stream_started(slots: SessionSlots) -> (SessionSlots, Result<(), SessionFault>) {
    let (taken, done) = machine_taken(slots);
    if done is Err {
        (slots, done)
    } else if slots.frames {
        (taken, Err(SessionFault::Streaming))
    } else {
        (SessionSlots { frames: true, ..taken }, Ok(()))
    }
}

/// A session after its frames were asked for.
pub open spec fn frames_taken(slots: SessionSlots) -> (SessionSlots, Result<(), SessionFault>) {
    if slots.frames {
        (SessionSlots { frames: false, ..slots }, Ok(()))
    } else {
        (slots, Err(SessionFault::NotStreaming))
    }
}

/// While a round runs, no other is begun, and no outputs of tools are taken.
pub proof fn one_round_runs_at_a_time(slots: SessionSlots)
    ensures
        machine_taken(slots).1 is Ok ==> machine_taken(machine_taken(slots).0).1 is Err
            && stream_started(machine_taken(slots).0).1 is Err,
        stream_started(slots).1 is Ok ==> machine_taken(stream_started(slots).0).1 is Err
            && stream_started(stream_started(slots).0).1 is Err,
{
}

impl SessionSlots {
    /// A session before its first round.
    pub fn new() -> (slots: Self)
        ensures
            slots == (SessionSlots { machine: true, frames: false }),
    {
        SessionSlots { machine: true, frames: false }
    }

    /// Takes the machine for a round, or for the outputs of tools.
    pub fn take_machine(&mut self) -> (done: Result<(), SessionFault>)
        ensures
            (*final(self), done) == machine_taken(*old(self)),
    {
        if !self.machine {
            return Err(SessionFault::Executing);
        }
        self.machine = false;
        Ok(())
    }

    /// Puts the machine back.
    pub fn return_machine(&mut self)
        ensures
            *final(self) == (SessionSlots { machine: true, ..*old(self) }),
    {
        self.machine = true;
    }

    /// Begins a round with frames.
    pub fn start_stream(&mut self) -> (done: Result<(), SessionFault>)
        ensures
            (*final(self), done) == stream_started(*old(self)),
    {
        match self.take_machine() {
            Ok(()) => {},
            Err(fault) => return Err(fault),
        }
        if self.frames {
            return Err(SessionFault::Streaming);
        }
        self.frames = true;
        Ok(())
    }

    /// Takes the frames, to wait for the next one.
    pub fn take_frames(&mut self) -> (done: Result<(), SessionFault>)
        ensures
            (*final(self), done) == frames_taken(*old(self)),
    {
        if !self.frames {
            return Err(SessionFault::NotStreaming);
        }
        self.frames = false;
        Ok(())
    }

    /// Puts the frames back, unless the last one came.
    pub fn return_frames(&mut self, last: bool)
        ensures
            *final(self) == if last {
                *old(self)
            } else {
                SessionSlots { frames: true, ..*old(self) }
            },
    {
        if !last {
            self.frames = true;
        }
    }
}

/// Whether a frame is the last one of its round.
pub fn is_last_frame(frame: &ResponseFrame) -> (last: bool)
    ensures
        last == !(frame is Event),
{
    match frame {
        ResponseFrame::Event { .. } => false,
        _ => true,
    }
}

} // verus!
