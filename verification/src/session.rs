//! One communication session: the frame assembler, the two vector
//! channels and the run controller, driven by the outcome of each
//! transport read. The caller owns the transport; it hands every read's
//! outcome to [`Session::step`] and performs no decision of its own.

use vstd::prelude::*;

use crate::channel::Channel;
use crate::frame::{process_lines, FrameAssembler, FrameError};
use crate::run::RunController;
use crate::types::FixedPointVector;

verus! {

/// What one transport read produced.
#[derive(Debug)]
pub enum ReadEvent {
    /// The read delivered these bytes; a timeout that delivered none is
    /// an empty chunk.
    Data(Vec<u8>),
    /// The read failed in a recoverable way; the loop carries on.
    TransientError,
    /// The peer is gone; the session must end.
    Disconnected,
}

/// What the caller's loop must do after one step.
#[derive(Clone, Copy, Debug, PartialEq, Eq, Structural)]
pub enum StepOutcome {
    /// Keep reading.
    Continue,
    /// The session is over; stop the loop.
    Stopped,
    /// A fatal framing condition ended the session.
    Failed(FrameError),
}

/// The state one continuous-read session owns.
pub struct Session {
    assembler: FrameAssembler,
    accel: Channel,
    grav: Channel,
    run: RunController,
}

impl Session {
    /// True while the session may keep running.
    pub closed spec fn running(&self) -> bool {
        self.run.spec_running()
    }

    /// The unconsumed bytes the frame assembler retains.
    pub closed spec fn pending(&self) -> Seq<u8> {
        self.assembler.pending()
    }

    /// The vectors waiting in the acceleration channel.
    pub closed spec fn accel_view(&self) -> Seq<FixedPointVector> {
        self.accel@
    }

    /// The vectors waiting in the gravity channel.
    pub closed spec fn grav_view(&self) -> Seq<FixedPointVector> {
        self.grav@
    }

    /// The assembler's buffer is within bounds.
    pub closed spec fn wf(&self) -> bool {
        self.assembler.wf()
    }

    /// Creates a fresh session: empty buffer, empty channels, flag set.
    pub fn new() -> (s: Session)
        ensures
            s.wf(),
            s.running(),
            s.pending() == Seq::<u8>::empty(),
            s.accel_view() == Seq::<FixedPointVector>::empty(),
            s.grav_view() == Seq::<FixedPointVector>::empty(),
    {
        Session {
            assembler: FrameAssembler::new(),
            accel: Channel::new(),
            grav: Channel::new(),
            run: RunController::new(),
        }
    }

    /// Drives the session by one iteration of the continuous-read loop.
    ///
    /// The run flag is polled first: once it is clear the step does
    /// nothing — in particular it writes to no channel — and answers
    /// `Stopped`. While running, delivered bytes go through the frame
    /// assembler, a disconnect or a fatal framing condition clears the
    /// flag and ends the session, and a transient read error is absorbed.
    pub fn step(&mut self, event: ReadEvent) -> (r: StepOutcome)
        requires
            old(self).wf(),
        ensures
            final(self).wf(),
            !old(self).running() ==> r == StepOutcome::Stopped && *final(self) == *old(self),
            old(self).running() && event is Disconnected ==> r == StepOutcome::Stopped
                && !final(self).running() && final(self).pending() == old(self).pending()
                && final(self).accel_view() == old(self).accel_view() && final(self).grav_view()
                == old(self).grav_view(),
            old(self).running() && event is TransientError ==> r == StepOutcome::Continue
                && *final(self) == *old(self),
            old(self).running() ==> (event matches ReadEvent::Data(b) ==> ({
                let combined = old(self).pending() + b@;
                let outcome = process_lines(combined, old(self).accel_view(), old(self).grav_view());
                &&& (combined.len() > crate::frame::FRAME_BUFFER_SIZE ==> r == StepOutcome::Failed(
                    FrameError::Overflow,
                ) && !final(self).running() && final(self).pending() == old(self).pending()
                    && final(self).accel_view() == old(self).accel_view() && final(self).grav_view()
                    == old(self).grav_view())
                &&& (combined.len() <= crate::frame::FRAME_BUFFER_SIZE && !vstd::utf8::valid_utf8(
                    combined,
                ) ==> r == StepOutcome::Failed(FrameError::InvalidUtf8) && !final(self).running()
                    && final(self).pending() == combined && final(self).accel_view() == old(
                    self,
                ).accel_view() && final(self).grav_view() == old(self).grav_view())
                &&& (combined.len() <= crate::frame::FRAME_BUFFER_SIZE && vstd::utf8::valid_utf8(
                    combined,
                ) ==> r == StepOutcome::Continue && final(self).running() == old(self).running()
                    && final(self).pending() == outcome.0 && final(self).accel_view() == outcome.1
                    && final(self).grav_view() == outcome.2)
            })),
    {
        if !self.run.is_running() {
            return StepOutcome::Stopped;
        }
        match event {
            ReadEvent::Disconnected => {
                self.run.clear();
                StepOutcome::Stopped
            },
            ReadEvent::TransientError => StepOutcome::Continue,
            ReadEvent::Data(bytes) => {
                match self.assembler.feed(bytes.as_slice(), &mut self.accel, &mut self.grav) {
                    Ok(()) => StepOutcome::Continue,
                    Err(e) => {
                        self.run.clear();
                        StepOutcome::Failed(e)
                    },
                }
            },
        }
    }

    /// Asks the session to stop: the external shutdown trigger. The next
    /// step observes the cleared flag and exits.
    pub fn request_stop(&mut self)
        ensures
            !final(self).running(),
            final(self).wf() == old(self).wf(),
            final(self).pending() == old(self).pending(),
            final(self).accel_view() == old(self).accel_view(),
            final(self).grav_view() == old(self).grav_view(),
    {
        self.run.clear();
    }

    /// Polls the run flag.
    pub fn is_running(&self) -> (r: bool)
        ensures
            r == self.running(),
    {
        self.run.is_running()
    }

    /// Removes and returns the oldest waiting acceleration vector, if
    /// any; never blocks.
    pub fn dequeue_accel(&mut self) -> (r: Option<FixedPointVector>)
        ensures
            final(self).wf() == old(self).wf(),
            final(self).running() == old(self).running(),
            final(self).pending() == old(self).pending(),
            final(self).grav_view() == old(self).grav_view(),
            old(self).accel_view().len() == 0 ==> r is None && final(self).accel_view() == old(
                self,
            ).accel_view(),
            old(self).accel_view().len() > 0 ==> r == Some(old(self).accel_view()[0])
                && final(self).accel_view() == old(self).accel_view().skip(1),
    {
        self.accel.dequeue()
    }

    /// Removes and returns the oldest waiting gravity vector, if any;
    /// never blocks.
    pub fn dequeue_grav(&mut self) -> (r: Option<FixedPointVector>)
        ensures
            final(self).wf() == old(self).wf(),
            final(self).running() == old(self).running(),
            final(self).pending() == old(self).pending(),
            final(self).accel_view() == old(self).accel_view(),
            old(self).grav_view().len() == 0 ==> r is None && final(self).grav_view() == old(
                self,
            ).grav_view(),
            old(self).grav_view().len() > 0 ==> r == Some(old(self).grav_view()[0])
                && final(self).grav_view() == old(self).grav_view().skip(1),
    {
        self.grav.dequeue()
    }
}

} // verus!
