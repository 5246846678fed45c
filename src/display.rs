use vstd::prelude::*;

use std::sync::mpsc::{Receiver, SendError, SyncSender, TrySendError};

verus! {

#[verifier::external_type_specification]
#[verifier::external_body]
#[verifier::reject_recursive_types(T)]
pub struct ExSyncSender<T>(SyncSender<T>);

#[verifier::external_type_specification]
#[verifier::external_body]
#[verifier::reject_recursive_types(T)]
pub struct ExReceiver<T>(Receiver<T>);

#[verifier::external_type_specification]
#[verifier::external_body]
#[verifier::reject_recursive_types(T)]
pub struct ExSendError<T>(SendError<T>);

/// Relies on std::sync::mpsc::sync_channel: a bound of zero makes a
/// rendezvous channel, where a value passes only to a receiver that waits.
#[verifier::external_body]
fn rendezvous_channel<T>() -> (SyncSender<T>, Receiver<T>) {
    std::sync::mpsc::sync_channel(0)
}

/// Relies on SyncSender::send: blocks until a receiver takes the value, fails
/// once the receiver is gone.
#[verifier::external_body]
fn hand_over<T>(sender: &SyncSender<T>, value: T) -> Result<(), SendError<T>> {
    sender.send(value)
}

/// Relies on SyncSender::try_send: never blocks; tells a taken value from one
/// refused because no receiver was waiting and from one refused because the
/// receiver is gone.
#[verifier::external_body]
fn offer<T>(sender: &SyncSender<T>, value: T) -> HandOff {
    match sender.try_send(value) {
        Ok(()) => HandOff::Taken,
        Err(TrySendError::Full(_)) => HandOff::Busy,
        Err(TrySendError::Disconnected(_)) => HandOff::Closed,
    }
}

/// Relies on SyncSender::clone: a second handle on the same channel.
#[verifier::external_body]
fn share_sender<T>(sender: &SyncSender<T>) -> SyncSender<T> {
    sender.clone()
}

/// What became of a frame offered without blocking.
#[derive(Copy, Clone, Debug, PartialEq, Eq, Structural)]
pub enum HandOff {
    /// The consumer took it.
    Taken,
    /// The consumer was still busy with an earlier frame: this one is gone.
    Busy,
    /// The consumer has exited.
    Closed,
}

#[derive(Copy, Clone, Debug, PartialEq, Eq, Structural)]
pub enum DisplayError {
    /// The consumer of the frames has exited.
    Disconnected,
}

/// Transform from input frame to display frame format.
pub trait Transform<Color>: Sized {
    /// Frames of `len` pixels can be transformed.
    spec fn admits(&self, len: nat) -> bool;

    /// `out` is the transform of `frame`.
    spec fn maps_to(&self, frame: Seq<Color>, out: Seq<Color>) -> bool;

    /// Pixel `(x, y)` can be written into a transformed frame of `len` pixels.
    spec fn addressable(&self, len: nat, x: usize, y: usize) -> bool;

    /// `after` is `before` with `color` written at the transformed slot of `(x, y)`.
    spec fn writes_to(
        &self,
        before: Seq<Color>,
        x: usize,
        y: usize,
        color: Color,
        after: Seq<Color>,
    ) -> bool;

    fn transform(&self, frame: &Vec<Color>) -> (r: Vec<Color>)
        requires
            self.admits(frame@.len()),
        ensures
            self.maps_to(frame@, r@),
    ;

    fn write_pixel(&self, frame: &mut Vec<Color>, x: usize, y: usize, color: Color)
        requires
            self.addressable(old(frame)@.len(), x, y),
        ensures
            self.writes_to(old(frame)@, x, y, color, final(frame)@),
    ;
}

/// The transform that leaves frames as they are.
pub struct Identity;

/// A copy of `frame`.
pub fn copy_frame<Color: Copy>(frame: &Vec<Color>) -> (r: Vec<Color>)
    ensures
        r@ == frame@,
{
    let mut out: Vec<Color> = Vec::new();
    let mut i: usize = 0;
    while i < frame.len()
        invariant
            i <= frame@.len(),
            out@ =~= frame@.subrange(0, i as int),
        decreases frame@.len() - i,
    {
        out.push(frame[i]);
        i = i + 1;
    }
    assert(out@ =~= frame@);
    out
}

impl<Color: Copy> Transform<Color> for Identity {
    open spec fn admits(&self, len: nat) -> bool {
        true
    }

    open spec fn maps_to(&self, frame: Seq<Color>, out: Seq<Color>) -> bool {
        out == frame
    }

    open spec fn addressable(&self, len: nat, x: usize, y: usize) -> bool {
        true
    }

    open spec fn writes_to(
        &self,
        before: Seq<Color>,
        x: usize,
        y: usize,
        color: Color,
        after: Seq<Color>,
    ) -> bool {
        after == before
    }

    fn transform(&self, frame: &Vec<Color>) -> (r: Vec<Color>) {
        copy_frame(frame)
    }

    fn write_pixel(&self, frame: &mut Vec<Color>, x: usize, y: usize, color: Color) {
    }
}

/// The producing end of a rendezvous hand-off of frames: a frame passes only
/// to a consumer that is waiting for it, so the producer never runs ahead.
#[verifier::reject_recursive_types(Color)]
pub struct Display<Color> {
    sender: SyncSender<Vec<Color>>,
}

impl<Color: Copy> Display<Color> {
    /// A display and the receiving end that the consumer reads frames from.
    pub fn new() -> (Self, Receiver<Vec<Color>>) {
        let (sender, receiver) = rendezvous_channel();
        (Display { sender }, receiver)
    }

    /// Hands a copy of `frame` to the consumer, waiting until it is taken.
    pub fn write(&self, frame: &Vec<Color>) -> (r: Result<(), DisplayError>)
        ensures
            r.is_err() ==> r == Err::<(), DisplayError>(DisplayError::Disconnected),
    {
        let copy = copy_frame(frame);
        match hand_over(&self.sender, copy) {
            Ok(()) => Ok(()),
            Err(_) => Err(DisplayError::Disconnected),
        }
    }

    /// Offers `frame` without waiting: it is dropped unless the consumer is
    /// waiting for it.
    pub fn try_write(&self, frame: Vec<Color>) -> HandOff {
        offer(&self.sender, frame)
    }

    /// Another producing handle on the same hand-off.
    pub fn sink(&self) -> SyncSender<Vec<Color>> {
        share_sender(&self.sender)
    }
}

} // verus!
