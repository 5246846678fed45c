use vstd::prelude::*;

verus! {

/// One pixel: a 5-bit global brightness `a` and three 8-bit color channels.
#[derive(Copy, Clone, Debug, PartialEq, Eq, Structural)]
pub struct ARGB8 {
    pub a: u8,
    pub r: u8,
    pub g: u8,
    pub b: u8,
}

impl ARGB8 {
    pub fn new(a: u8, r: u8, g: u8, b: u8) -> (c: ARGB8)
        ensures
            c == (ARGB8 { a, r, g, b }),
    {
        ARGB8 { a, r, g, b }
    }
}

/// Size of the trailing end-frame region, in bytes.
pub open spec fn end_frame_len(l: nat) -> nat {
    6 + l / 16
}

/// Offset of the end-frame region: one start frame and `l` LED frames of four bytes.
pub open spec fn end_frame_start(l: nat) -> nat {
    4 * (l + 1)
}

pub open spec fn buffer_len(l: nat) -> nat {
    end_frame_start(l) + end_frame_len(l)
}

/// First byte of an LED frame: the top three bits are always set.
pub open spec fn brightness_byte(a: u8) -> u8 {
    0xE0u8 | a
}

/// Byte `j` (0..4) of the LED frame of pixel `c`: brightness, blue, green, red.
pub open spec fn led_byte(c: ARGB8, j: int) -> u8 {
    if j == 0 {
        brightness_byte(c.a)
    } else if j == 1 {
        c.b
    } else if j == 2 {
        c.g
    } else {
        c.r
    }
}

/// The framing around the LED frames: a zero start frame, an end frame whose
/// first byte is 0xFF and whose other bytes are zero.
pub open spec fn framed(bytes: Seq<u8>, l: nat) -> bool {
    &&& bytes.len() == buffer_len(l)
    &&& forall|i: int| 0 <= i < 4 ==> #[trigger] bytes[i] == 0
    &&& bytes[end_frame_start(l) as int] == 0xFF
    &&& forall|i: int| end_frame_start(l) < i < buffer_len(l) ==> #[trigger] bytes[i] == 0
}

/// The LED frames of `bytes` hold the first `l` pixels of `frame`.
pub open spec fn holds_pixels(bytes: Seq<u8>, l: nat, frame: Seq<ARGB8>) -> bool {
    forall|k: int, j: int|
        0 <= k < l && 0 <= j < 4 ==> #[trigger] bytes[4 * k + 4 + j] == led_byte(frame[k], j)
}

/// `bytes` is the complete wire image of the first `l` pixels of `frame`.
pub open spec fn encodes(bytes: Seq<u8>, l: nat, frame: Seq<ARGB8>) -> bool {
    framed(bytes, l) && holds_pixels(bytes, l, frame)
}

/// The wire image of a strip before any frame was written: all zero but the
/// first end-frame byte.
pub open spec fn blank(l: nat) -> Seq<u8> {
    Seq::new(buffer_len(l), |i: int| if i == end_frame_start(l) { 0xFFu8 } else { 0u8 })
}

/// Byte buffer of one APA102 strip, allocated once for its length and
/// rewritten in place for every frame.
pub struct Apa102 {
    length: usize,
    buffer: Vec<u8>,
}

impl View for Apa102 {
    type V = Seq<u8>;

    closed spec fn view(&self) -> Seq<u8> {
        self.buffer@
    }
}

impl Apa102 {
    /// Number of LEDs on the strip.
    pub closed spec fn strip_length(&self) -> nat {
        self.length as nat
    }

    pub open spec fn wf(&self) -> bool {
        framed(self@, self.strip_length())
    }

    /// Creates the buffer of a strip of `length` LEDs.
    pub fn new(length: u16) -> (s: Self)
        ensures
            s.wf(),
            s.strip_length() == length,
            s@ == blank(length as nat),
    {
        let l = length as usize;
        let led_frame: usize = 4 * (l + 1);
        let end_frame: usize = 6 + l / 16;
        let buffer_size: usize = led_frame + end_frame;
        let mut buffer: Vec<u8> = Vec::with_capacity(buffer_size);
        let mut i: usize = 0;
        while i < buffer_size
            invariant
                i <= buffer_size,
                buffer_size == buffer_len(l as nat),
                led_frame == end_frame_start(l as nat),
                buffer@ =~= blank(l as nat).subrange(0, i as int),
            decreases buffer_size - i,
        {
            if i == led_frame {
                buffer.push(0xFF);
            } else {
                buffer.push(0);
            }
            i = i + 1;
        }
        assert(buffer@ =~= blank(l as nat));
        Apa102 { length: l, buffer }
    }

    /// Writes the first `strip_length` pixels of `frame` into the LED frames,
    /// leaving the start and end frames untouched.
    pub fn update(&mut self, frame: &[ARGB8])
        requires
            old(self).wf(),
            frame@.len() >= old(self).strip_length(),
        ensures
            final(self).strip_length() == old(self).strip_length(),
            encodes(final(self)@, final(self).strip_length(), frame@),
    {
        let l = self.length;
        let size = self.buffer.len();
        let mut i: usize = 0;
        while i < l
            invariant
                i <= l,
                l == self.length,
                size == self.buffer@.len(),
                framed(self.buffer@, l as nat),
                forall|k: int, j: int|
                    0 <= k < i && 0 <= j < 4 ==> #[trigger] self.buffer@[4 * k + 4 + j]
                        == led_byte(frame@[k], j),
                frame@.len() >= l,
            decreases l - i,
        {
            let idx: usize = 4 * (1 + i);
            let e = frame[i];
            self.buffer.set(idx, 0xE0u8 | e.a);
            self.buffer.set(idx + 1, e.b);
            self.buffer.set(idx + 2, e.g);
            self.buffer.set(idx + 3, e.r);
            assert forall|k: int, j: int|
                0 <= k < i + 1 && 0 <= j < 4 implies #[trigger] self.buffer@[4 * k + 4 + j]
                    == led_byte(frame@[k], j) by {
                if k == i {
                    assert(4 * k + 4 + j == idx + j);
                }
            }
            i = i + 1;
        }
    }

    /// The wire image to hand to the bus.
    pub fn get_buffer(&self) -> (r: &Vec<u8>)
        ensures
            r@ == self@,
    {
        &self.buffer
    }
}

/// The brightness byte keeps the three marker bits set and carries the 5-bit
/// brightness field unchanged; full brightness gives 0xFF and zero gives 0xE0.
pub proof fn lemma_brightness_byte(a: u8)
    ensures
        brightness_byte(a) & 0xE0u8 == 0xE0u8,
        brightness_byte(a) & 0x1Fu8 == a & 0x1Fu8,
        a == 31 ==> brightness_byte(a) == 0xFFu8,
        a == 0 ==> brightness_byte(a) == 0xE0u8,
{
    assert((0xE0u8 | a) & 0xE0u8 == 0xE0u8) by (bit_vector);
    assert((0xE0u8 | a) & 0x1Fu8 == a & 0x1Fu8) by (bit_vector);
    assert(a == 31 ==> (0xE0u8 | a) == 0xFFu8) by (bit_vector);
    assert(a == 0 ==> (0xE0u8 | a) == 0xE0u8) by (bit_vector);
}

/// Whatever frame was written, a strip of length `l` has a buffer of
/// `4 * (l + 1) + 6 + l / 16` bytes, a zero start frame and 0xFF as first
/// end-frame byte; a pixel of brightness 31 starts its LED frame with 0xFF and
/// one of brightness 0 with 0xE0.
pub proof fn lemma_wire_layout(bytes: Seq<u8>, l: nat, frame: Seq<ARGB8>)
    requires
        encodes(bytes, l, frame),
    ensures
        bytes.len() == 4 * (l + 1) + 6 + l / 16,
        bytes.subrange(0, 4) == seq![0u8, 0u8, 0u8, 0u8],
        bytes[4 * (l + 1) as int] == 0xFFu8,
        forall|k: int|
            0 <= k < l && (#[trigger] frame[k]).a == 31 ==> bytes[4 * k + 4] == 0xFFu8,
        forall|k: int| 0 <= k < l && (#[trigger] frame[k]).a == 0 ==> bytes[4 * k + 4] == 0xE0u8,
{
    assert forall|k: int| 0 <= k < l implies (frame[k].a == 31 ==> bytes[4 * k + 4] == 0xFFu8)
        && (#[trigger] frame[k].a == 0 ==> bytes[4 * k + 4] == 0xE0u8) by {
        assert(bytes[4 * k + 4 + 0] == led_byte(frame[k], 0));
        lemma_brightness_byte(frame[k].a);
    }
    assert(bytes[0] == 0 && bytes[1] == 0 && bytes[2] == 0 && bytes[3] == 0);
    assert(bytes.subrange(0, 4) =~= seq![0u8, 0u8, 0u8, 0u8]);
}

} // verus!
