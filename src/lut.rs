use vstd::prelude::*;

verus! {

/// Number of samples of the sigmoid table.
pub const SIGMOID_SIZE: usize = 2048;

/// Number of hue rows of the color table, one per degree.
pub const HUES: usize = 360;

/// Number of lightness columns of the color table.
pub const VALUES: usize = 256;

/// Sample of the sigmoid table read for an argument `x` with
/// `steps == trunc(x * SIGMOID_SIZE / 20)`: the sample at or below `x`, the
/// first one for `x <= -10` and the last one for `x >= 10`.
pub open spec fn sigmoid_slot(steps: int) -> int {
    let i = steps + SIGMOID_SIZE / 2;
    if i < 0 {
        0
    } else if i >= SIGMOID_SIZE {
        SIGMOID_SIZE - 1
    } else {
        i
    }
}

/// Cell of the color table read for a hue of `h_steps` degrees and a
/// lightness of `v_steps` 256ths: the hue wraps around the circle and the
/// lightness is held at the last column.
pub open spec fn clut_slot(h_steps: nat, v_steps: nat) -> int {
    let h = h_steps % HUES as nat;
    let v = if v_steps < VALUES {
        v_steps
    } else {
        (VALUES - 1) as nat
    };
    (h * VALUES as nat + v) as int
}

pub fn sigmoid_index(steps: i64) -> (i: usize)
    ensures
        i == sigmoid_slot(steps as int),
{
    if steps <= -1024 {
        0
    } else if steps >= 1023 {
        SIGMOID_SIZE - 1
    } else {
        (steps + 1024) as usize
    }
}

pub fn clut_index(h_steps: usize, v_steps: usize) -> (i: usize)
    ensures
        i == clut_slot(h_steps as nat, v_steps as nat),
        i < HUES * VALUES,
{
    let h = h_steps % HUES;
    let v = if v_steps < VALUES {
        v_steps
    } else {
        VALUES - 1
    };
    assert(h * VALUES + v < HUES * VALUES) by (nonlinear_arith)
        requires
            h < HUES,
            v < VALUES,
    ;
    h * VALUES + v
}

/// The logistic function sampled at `SIGMOID_SIZE` evenly spaced points of
/// `[-10, 10]`: sample `i` is taken at `(i - 1024) / 1024 * 10`.
pub struct Sigmoid<T> {
    lut: Vec<T>,
}

impl<T: Copy> Sigmoid<T> {
    pub closed spec fn samples(&self) -> Seq<T> {
        self.lut@
    }

    pub open spec fn wf(&self) -> bool {
        self.samples().len() == SIGMOID_SIZE
    }

    pub fn from_samples(lut: Vec<T>) -> (s: Self)
        requires
            lut@.len() == SIGMOID_SIZE,
        ensures
            s.wf(),
            s.samples() == lut@,
    {
        Sigmoid { lut }
    }

    /// The sample for an argument of `steps` table steps from zero.
    pub fn at(&self, steps: i64) -> (v: T)
        requires
            self.wf(),
        ensures
            v == self.samples()[sigmoid_slot(steps as int)],
    {
        self.lut[sigmoid_index(steps)]
    }
}

/// Colors by hue and lightness, `HUES` rows of `VALUES` cells.
pub struct Clut<T> {
    lut: Vec<T>,
}

impl<T: Copy> Clut<T> {
    pub closed spec fn cells(&self) -> Seq<T> {
        self.lut@
    }

    pub open spec fn wf(&self) -> bool {
        self.cells().len() == HUES * VALUES
    }

    pub fn from_cells(lut: Vec<T>) -> (c: Self)
        requires
            lut@.len() == HUES * VALUES,
        ensures
            c.wf(),
            c.cells() == lut@,
    {
        Clut { lut }
    }

    /// The color for a hue of `h_steps` degrees and a lightness of `v_steps`
    /// 256ths.
    pub fn lookup(&self, h_steps: usize, v_steps: usize) -> (c: T)
        requires
            self.wf(),
        ensures
            c == self.cells()[clut_slot(h_steps as nat, v_steps as nat)],
    {
        self.lut[clut_index(h_steps, v_steps)]
    }
}

/// Arguments at or beyond the ends of the sampled domain read the end samples,
/// a larger argument never reads an earlier sample, and zero reads the sample
/// taken at zero.
pub proof fn lemma_sigmoid_slot(s: int, t: int)
    ensures
        0 <= sigmoid_slot(s) < SIGMOID_SIZE,
        s <= -1024 ==> sigmoid_slot(s) == 0,
        s >= 1024 ==> sigmoid_slot(s) == SIGMOID_SIZE - 1,
        s <= t ==> sigmoid_slot(s) <= sigmoid_slot(t),
        sigmoid_slot(0) == SIGMOID_SIZE / 2,
{
}

/// Every hue and lightness reads a cell of the table; at a fixed hue a larger
/// lightness never reads an earlier cell, and the cells stay in the hue's row.
pub proof fn lemma_clut_slot(h: nat, v: nat, w: nat)
    ensures
        0 <= clut_slot(h, v) < HUES * VALUES,
        clut_slot(h, v) / VALUES as int == h % HUES as nat,
        v <= w ==> clut_slot(h, v) <= clut_slot(h, w),
        clut_slot(h + HUES as nat, v) == clut_slot(h, v),
{
    let r = h % HUES as nat;
    let c = if v < VALUES { v } else { (VALUES - 1) as nat };
    assert(r < HUES);
    assert(0 <= r * VALUES as nat + c < HUES * VALUES) by (nonlinear_arith)
        requires
            r < HUES,
            c < VALUES,
    ;
    assert((h + HUES as nat) % HUES as nat == h % HUES as nat) by (nonlinear_arith);
    vstd::arithmetic::div_mod::lemma_fundamental_div_mod_converse(
        clut_slot(h, v),
        VALUES as int,
        r as int,
        c as int,
    );
}

} // verus!
