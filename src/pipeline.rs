use vstd::prelude::*;

use crate::apa102::{blank, encodes, Apa102, ARGB8};
use crate::display::HandOff;
use crate::transform::{wiring_order, Transform};

verus! {

/// `c` plus one, held at the largest value.
pub open spec fn bumped(c: u64) -> u64 {
    if c < u64::MAX {
        (c + 1) as u64
    } else {
        c
    }
}

/// Tally of the frames that the render stage offered to the output stage.
#[derive(Copy, Clone, Debug, PartialEq, Eq, Structural)]
pub struct FrameCounts {
    pub delivered: u64,
    pub dropped: u64,
}

impl FrameCounts {
    pub fn new() -> (c: FrameCounts)
        ensures
            c.delivered == 0,
            c.dropped == 0,
    {
        FrameCounts { delivered: 0, dropped: 0 }
    }

    /// Records what became of one frame offered to the output stage and says
    /// whether rendering goes on. A frame that the output stage was too busy to
    /// take is counted as dropped, and rendering goes on with the next one; a
    /// closed output stage ends rendering.
    pub fn record(&mut self, outcome: HandOff) -> (keep_rendering: bool)
        ensures
            keep_rendering == (outcome != HandOff::Closed),
            outcome == HandOff::Taken ==> final(self).delivered == bumped(old(self).delivered)
                && final(self).dropped == old(self).dropped,
            outcome == HandOff::Busy ==> final(self).dropped == bumped(old(self).dropped)
                && final(self).delivered == old(self).delivered,
            outcome == HandOff::Closed ==> *final(self) == *old(self),
    {
        match outcome {
            HandOff::Taken => {
                if self.delivered < u64::MAX {
                    self.delivered = self.delivered + 1;
                }
                true
            },
            HandOff::Busy => {
                if self.dropped < u64::MAX {
                    self.dropped = self.dropped + 1;
                }
                true
            },
            HandOff::Closed => false,
        }
    }
}

/// The output stage's own state: the wiring of the strips and the wire buffer
/// of the strip, both owned by the stage alone.
pub struct OutputStage {
    transform: Transform,
    leds: Apa102,
}

impl OutputStage {
    pub closed spec fn layout(&self) -> Transform {
        self.transform
    }

    pub closed spec fn strip(&self) -> Apa102 {
        self.leds
    }

    /// The wiring order of `frame` for this stage's layout.
    pub open spec fn wired(&self, frame: Seq<ARGB8>) -> Seq<ARGB8> {
        wiring_order(
            frame,
            self.layout().seg_len(),
            self.layout().reversed_view(),
            self.layout().x_map_view(),
        )
    }

    /// Frames of `len` pixels can be sent out: the layout reads inside them and
    /// gives at least one pixel per LED.
    pub open spec fn admits(&self, len: nat) -> bool {
        &&& self.layout().wf()
        &&& self.layout().accepts(len)
        &&& self.layout().strips() * self.layout().seg_len() >= self.strip().strip_length()
    }

    pub fn new(transform: Transform, length: u16) -> (s: Self)
        ensures
            s.layout() == transform,
            s.strip().wf(),
            s.strip().strip_length() == length,
            s.strip()@ == blank(length as nat),
    {
        OutputStage { transform, leds: Apa102::new(length) }
    }

    /// Puts `frame` into wiring order and encodes it into the wire buffer.
    pub fn prepare(&mut self, frame: &Vec<ARGB8>)
        requires
            old(self).admits(frame@.len()),
            old(self).strip().wf(),
        ensures
            final(self).layout() == old(self).layout(),
            final(self).strip().wf(),
            final(self).strip().strip_length() == old(self).strip().strip_length(),
            encodes(final(self).strip()@, final(self).strip().strip_length(), final(self).wired(frame@)),
    {
        let wired = self.transform.apply(frame);
        self.leds.update(wired.as_slice());
    }

    /// The wire image of the last prepared frame.
    pub fn buffer(&self) -> (r: &Vec<u8>)
        ensures
            r@ == self.strip()@,
    {
        self.leds.get_buffer()
    }
}

} // verus!
