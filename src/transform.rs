use vstd::prelude::*;
use vstd::arithmetic::div_mod::{lemma_fundamental_div_mod, lemma_mod_bound};
use vstd::arithmetic::mul::lemma_mul_inequality;

use crate::apa102::ARGB8;
use crate::display;

verus! {

/// Pixel `y` of physical segment `phys` (segments of `l` pixels), read
/// backwards when `rev` holds.
pub open spec fn strip_pixel<C>(frame: Seq<C>, l: nat, phys: nat, rev: bool, y: int) -> C {
    if rev {
        frame[phys * l + (l - 1 - y)]
    } else {
        frame[phys * l + y]
    }
}

/// `out` is `frame` in wiring order: logical strip `x` is physical segment
/// `x_map[x]` of `frame`, reversed where `rev[x]` holds, and the strips follow
/// one another in logical order.
pub open spec fn remaps<C>(
    out: Seq<C>,
    frame: Seq<C>,
    l: nat,
    rev: Seq<bool>,
    x_map: Seq<usize>,
) -> bool {
    &&& out.len() == rev.len() * l
    &&& forall|x: int, y: int|
        0 <= x < rev.len() && 0 <= y < l ==> #[trigger] out[x * l + y] == strip_pixel(
            frame,
            l,
            x_map[x] as nat,
            rev[x],
            y,
        )
}

/// The frame in wiring order, pixel by pixel: pixel `p` of the output is pixel
/// `p % l` of logical strip `p / l`.
pub open spec fn wiring_order<C>(frame: Seq<C>, l: nat, rev: Seq<bool>, x_map: Seq<usize>) -> Seq<
    C,
> {
    Seq::new(
        rev.len() * l,
        |p: int| strip_pixel(frame, l, x_map[p / (l as int)] as nat, rev[p / (l as int)], p % (l as int)),
    )
}

/// Every segment that `x_map` names lies inside a frame of `len` pixels.
pub open spec fn segments_fit(len: nat, l: nat, x_map: Seq<usize>) -> bool {
    forall|x: int| 0 <= x < x_map.len() ==> (#[trigger] x_map[x] + 1) * l <= len
}

/// Pixels `phys * l .. phys * l + l` of `frame`.
pub open spec fn segment<C>(frame: Seq<C>, l: nat, phys: nat) -> Seq<C> {
    frame.subrange((phys * l) as int, (phys * l + l) as int)
}

proof fn lemma_segment_bound(x: int, n: int, l: int)
    requires
        0 <= x < n,
        0 <= l,
    ensures
        0 <= x * l,
        x * l + l <= n * l,
{
    lemma_mul_inequality(x + 1, n, l);
    assert((x + 1) * l == x * l + l) by (nonlinear_arith);
    assert(0 <= x * l) by (nonlinear_arith)
        requires
            0 <= x,
            0 <= l,
    ;
}

proof fn lemma_slot_bound(x: int, y: int, n: int, l: int)
    requires
        0 <= x < n,
        0 <= y < l,
    ensures
        0 <= x * l,
        x * l + y < n * l,
{
    lemma_segment_bound(x, n, l);
}

proof fn lemma_slot_split(p: int, n: int, l: int)
    requires
        0 <= p < n * l,
        0 <= n,
        0 <= l,
    ensures
        l > 0,
        0 <= p / l < n,
        0 <= p % l < l,
        p == (p / l) * l + p % l,
{
    if l == 0 {
        assert(n * l == 0) by (nonlinear_arith)
            requires
                l == 0,
        ;
    }
    lemma_fundamental_div_mod(p, l);
    lemma_mod_bound(p, l);
    assert(p / l >= 0) by (nonlinear_arith)
        requires
            p >= 0,
            l > 0,
            p == l * (p / l) + p % l,
            p % l < l,
    ;
    assert(l * (p / l) == (p / l) * l) by (nonlinear_arith);
    if p / l >= n {
        lemma_mul_inequality(n, p / l, l);
    }
}

/// Maps a logical row-major canvas of `num_strips` strips of `strip_length`
/// pixels onto the physical wiring: a permutation of strips and a reversal
/// flag per strip.
pub struct Transform {
    num_strips: u8,
    strip_length: u16,
    reversed: Vec<bool>,
    x_map: Vec<usize>,
}

impl Transform {
    pub closed spec fn strips(&self) -> nat {
        self.num_strips as nat
    }

    pub closed spec fn seg_len(&self) -> nat {
        self.strip_length as nat
    }

    pub closed spec fn reversed_view(&self) -> Seq<bool> {
        self.reversed@
    }

    pub closed spec fn x_map_view(&self) -> Seq<usize> {
        self.x_map@
    }

    pub open spec fn wf(&self) -> bool {
        &&& self.reversed_view().len() == self.strips()
        &&& self.x_map_view().len() == self.strips()
    }

    /// `frame` holds every segment that the permutation reads.
    pub open spec fn accepts(&self, len: nat) -> bool {
        segments_fit(len, self.seg_len(), self.x_map_view())
    }

    /// Slot of the transformed frame that pixel `y` of logical strip `x` is
    /// written to.
    pub open spec fn slot(&self, x: usize, y: usize) -> int {
        let l = self.seg_len() as int;
        l * self.x_map_view()[x as int] + if self.reversed_view()[x as int] {
            l - y
        } else {
            y as int
        }
    }

    /// The permutation and reversal flags must have one entry per strip.
    pub fn new(num_strips: u8, strip_length: u16, reversed: Vec<bool>, x_map: Vec<usize>) -> (t:
        Self)
        requires
            reversed@.len() == num_strips,
            x_map@.len() == num_strips,
        ensures
            t.wf(),
            t.strips() == num_strips,
            t.seg_len() == strip_length,
            t.reversed_view() == reversed@,
            t.x_map_view() == x_map@,
    {
        Transform { num_strips, strip_length, reversed, x_map }
    }

    /// Reorders a logical frame into wiring order.
    pub fn apply(&self, frame: &Vec<ARGB8>) -> (r: Vec<ARGB8>)
        requires
            self.wf(),
            self.accepts(frame@.len()),
        ensures
            remaps(r@, frame@, self.seg_len(), self.reversed_view(), self.x_map_view()),
            r@ == wiring_order(frame@, self.seg_len(), self.reversed_view(), self.x_map_view()),
    {
        let l = self.strip_length as usize;
        let n = self.num_strips as usize;
        let ghost lv = l as nat;
        let ghost rv = self.reversed@;
        let ghost xv = self.x_map@;
        let flen = frame.len();
        let mut out: Vec<ARGB8> = Vec::new();
        let mut x: usize = 0;
        while x < n
            invariant
                x <= n,
                flen == frame@.len(),
                n == rv.len(),
                n == xv.len(),
                rv == self.reversed@,
                xv == self.x_map@,
                lv == l,
                segments_fit(frame@.len(), lv, xv),
                out@.len() == x * l,
                forall|x1: int, y1: int|
                    0 <= x1 < x && 0 <= y1 < l ==> #[trigger] out@[x1 * l + y1] == strip_pixel(
                        frame@,
                        lv,
                        xv[x1] as nat,
                        rv[x1],
                        y1,
                    ),
            decreases n - x,
        {
            let phys = self.x_map[x];
            let rev = self.reversed[x];
            assert((xv[x as int] + 1) * lv <= frame@.len());
            assert((phys + 1) * l == phys * l + l) by (nonlinear_arith);
            assert(0 <= phys * l) by (nonlinear_arith);
            let base: usize = phys * l;
            let mut y: usize = 0;
            while y < l
                invariant
                    x < n,
                    y <= l,
                    n == rv.len(),
                    n == xv.len(),
                    lv == l,
                    phys == xv[x as int],
                    rev == rv[x as int],
                    base == phys * l,
                    flen == frame@.len(),
                    base + l <= frame@.len(),
                    out@.len() == x * l + y,
                    forall|x1: int, y1: int|
                        0 <= x1 < x && 0 <= y1 < l ==> #[trigger] out@[x1 * l + y1]
                            == strip_pixel(frame@, lv, xv[x1] as nat, rv[x1], y1),
                    forall|y1: int|
                        0 <= y1 < y ==> #[trigger] out@[x * l + y1] == strip_pixel(
                            frame@,
                            lv,
                            phys as nat,
                            rev,
                            y1,
                        ),
                decreases l - y,
            {
                let src: usize = if rev {
                    base + (l - 1 - y)
                } else {
                    base + y
                };
                let ghost before = out@;
                out.push(frame[src]);
                assert forall|x1: int, y1: int|
                    0 <= x1 < x && 0 <= y1 < l implies #[trigger] out@[x1 * l + y1]
                        == strip_pixel(frame@, lv, xv[x1] as nat, rv[x1], y1) by {
                    lemma_slot_bound(x1, y1, x as int, l as int);
                    assert(before[x1 * l + y1] == out@[x1 * l + y1]);
                }
                assert forall|y1: int| 0 <= y1 < y + 1 implies #[trigger] out@[x * l + y1]
                    == strip_pixel(frame@, lv, phys as nat, rev, y1) by {
                    if y1 < y {
                        assert(before[x * l + y1] == out@[x * l + y1]);
                    }
                }
                y = y + 1;
            }
            assert((x + 1) * l == x * l + l) by (nonlinear_arith);
            x = x + 1;
        }
        proof {
            lemma_remaps_is_wiring_order(out@, frame@, lv, rv, xv);
        }
        out
    }
}

impl display::Transform<ARGB8> for Transform {
    open spec fn admits(&self, len: nat) -> bool {
        self.wf() && self.accepts(len)
    }

    open spec fn maps_to(&self, frame: Seq<ARGB8>, out: Seq<ARGB8>) -> bool {
        remaps(out, frame, self.seg_len(), self.reversed_view(), self.x_map_view())
    }

    open spec fn addressable(&self, len: nat, x: usize, y: usize) -> bool {
        &&& self.wf()
        &&& x < self.strips()
        &&& y < self.seg_len()
        &&& self.slot(x, y) < len
    }

    open spec fn writes_to(
        &self,
        before: Seq<ARGB8>,
        x: usize,
        y: usize,
        color: ARGB8,
        after: Seq<ARGB8>,
    ) -> bool {
        after == before.update(self.slot(x, y), color)
    }

    fn transform(&self, frame: &Vec<ARGB8>) -> (r: Vec<ARGB8>) {
        self.apply(frame)
    }

    fn write_pixel(&self, frame: &mut Vec<ARGB8>, x: usize, y: usize, color: ARGB8) {
        let l = self.strip_length as usize;
        let len = frame.len();
        let phys = self.x_map[x];
        let rev = self.reversed[x];
        assert(0 <= l * phys) by (nonlinear_arith);
        let idx: usize = l * phys + if rev {
            l - y
        } else {
            y
        };
        frame.set(idx, color);
    }
}

/// The wiring order is the one sequence that `remaps` describes.
pub proof fn lemma_remaps_is_wiring_order<C>(
    out: Seq<C>,
    frame: Seq<C>,
    l: nat,
    rev: Seq<bool>,
    x_map: Seq<usize>,
)
    requires
        remaps(out, frame, l, rev, x_map),
    ensures
        out == wiring_order(frame, l, rev, x_map),
{
    let w = wiring_order(frame, l, rev, x_map);
    assert forall|p: int| 0 <= p < out.len() implies out[p] == w[p] by {
        lemma_slot_split(p, rev.len() as int, l as int);
        let x = p / (l as int);
        let y = p % (l as int);
        assert(out[x * l + y] == strip_pixel(frame, l, x_map[x] as nat, rev[x], y));
    }
    assert(out =~= w);
}

/// With the identity permutation and no strip reversed, the transform hands
/// back the frame unchanged.
pub proof fn lemma_identity_layout<C>(
    out: Seq<C>,
    frame: Seq<C>,
    l: nat,
    rev: Seq<bool>,
    x_map: Seq<usize>,
)
    requires
        frame.len() == rev.len() * l,
        x_map.len() == rev.len(),
        forall|x: int| 0 <= x < rev.len() ==> #[trigger] x_map[x] == x && !rev[x],
        remaps(out, frame, l, rev, x_map),
    ensures
        out == frame,
{
    assert forall|p: int| 0 <= p < frame.len() implies out[p] == frame[p] by {
        lemma_slot_split(p, rev.len() as int, l as int);
        let x = p / (l as int);
        let y = p % (l as int);
        assert(out[x * l + y] == strip_pixel(frame, l, x_map[x] as nat, rev[x], y));
    }
    assert(out =~= frame);
}

/// Logical strip `x` of the output is physical segment `x_map[x]` of the
/// input, whole and with its pixels unaltered, reversed exactly when its flag
/// is set.
pub proof fn lemma_strip_segment<C>(
    out: Seq<C>,
    frame: Seq<C>,
    l: nat,
    rev: Seq<bool>,
    x_map: Seq<usize>,
    x: int,
)
    requires
        x_map.len() == rev.len(),
        0 <= x < rev.len(),
        segments_fit(frame.len(), l, x_map),
        remaps(out, frame, l, rev, x_map),
    ensures
        segment(out, l, x as nat) == if rev[x] {
            segment(frame, l, x_map[x] as nat).reverse()
        } else {
            segment(frame, l, x_map[x] as nat)
        },
{
    let phys = x_map[x] as nat;
    let seg = segment(frame, l, phys);
    lemma_segment_bound(x, rev.len() as int, l as int);
    assert((phys + 1) * l <= frame.len());
    assert((phys + 1) * l == phys * l + l) by (nonlinear_arith);
    assert(0 <= phys * l) by (nonlinear_arith);
    assert forall|y: int| 0 <= y < l implies #[trigger] segment(out, l, x as nat)[y] == out[x
        * l + y] by {}
    if rev[x] {
        assert forall|y: int| 0 <= y < l implies #[trigger] segment(out, l, x as nat)[y]
            == seg.reverse()[y] by {
            assert(out[x * l + y] == strip_pixel(frame, l, phys, true, y));
        }
        assert(segment(out, l, x as nat) =~= seg.reverse());
    } else {
        assert forall|y: int| 0 <= y < l implies #[trigger] segment(out, l, x as nat)[y]
            == seg[y] by {
            assert(out[x * l + y] == strip_pixel(frame, l, phys, false, y));
        }
        assert(segment(out, l, x as nat) =~= seg);
    }
}

/// With the identity permutation and only strip `x0` flagged, strip `x0` comes
/// out reversed and every other strip exactly as it went in.
pub proof fn lemma_single_reversal<C>(
    out: Seq<C>,
    frame: Seq<C>,
    l: nat,
    rev: Seq<bool>,
    x_map: Seq<usize>,
    x0: int,
)
    requires
        frame.len() == rev.len() * l,
        x_map.len() == rev.len(),
        0 <= x0 < rev.len(),
        forall|x: int| 0 <= x < rev.len() ==> #[trigger] x_map[x] == x && (rev[x] <==> x == x0),
        remaps(out, frame, l, rev, x_map),
    ensures
        segment(out, l, x0 as nat) == segment(frame, l, x0 as nat).reverse(),
        forall|x: int|
            0 <= x < rev.len() && x != x0 ==> #[trigger] segment(out, l, x as nat) == segment(
                frame,
                l,
                x as nat,
            ),
{
    assert(segments_fit(frame.len(), l, x_map)) by {
        assert forall|x: int| 0 <= x < x_map.len() implies (#[trigger] x_map[x] + 1) * l
            <= frame.len() by {
            lemma_segment_bound(x, rev.len() as int, l as int);
            assert((x + 1) * l == x * l + l) by (nonlinear_arith);
        }
    }
    lemma_strip_segment(out, frame, l, rev, x_map, x0);
    assert forall|x: int| 0 <= x < rev.len() && x != x0 implies #[trigger] segment(
        out,
        l,
        x as nat,
    ) == segment(frame, l, x as nat) by {
        lemma_strip_segment(out, frame, l, rev, x_map, x);
    }
}

} // verus!
