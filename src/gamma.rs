//! The gamma ramp that fakes a backlight level, and the table it is
//! written into.
use vstd::arithmetic::div_mod::{
    lemma_div_is_ordered, lemma_div_multiples_vanish_fancy, lemma_div_multiples_vanish_quotient,
    lemma_fundamental_div_mod,
};
use vstd::prelude::*;

verus! {

/// The largest 16-bit channel intensity.
pub const CHANNEL_MAX: u16 = 65535;

/// The intensity of entry `i` of an `n`-entry ramp (`n > 1`).
///
/// The ramp position is `i / (n - 1)`. With a scale of `p` percent it is
/// multiplied by `p / 100` and clamped to one. The intensity is the floor
/// of the position times 65535.
pub open spec fn ramp_value(i: nat, n: nat, scale: Option<u64>) -> nat
    recommends
        n > 1,
{
    match scale {
        None => (i * 65535) / ((n - 1) as nat),
        Some(p) => {
            let v: nat = ((i * p * 65535) as nat) / (((n - 1) * 100) as nat);
            if v > 65535 {
                65535
            } else {
                v
            }
        },
    }
}

/// The intensity written at entry `i` of a table of `n` entries. A table
/// with a single entry holds only the top of the ramp.
pub open spec fn entry_value(i: nat, n: nat, scale: Option<u64>) -> nat {
    if n > 1 {
        ramp_value(i, n, scale)
    } else {
        ramp_value(1, 2, scale)
    }
}

proof fn lemma_div_le_bound(a: nat, b: nat, d: nat, k: nat)
    requires
        d > 0,
        a <= d,
        b == a * k,
    ensures
        b / d <= k,
{
    assert(a * k <= d * k) by (nonlinear_arith)
        requires
            a <= d,
    ;
    assert((a * k) / d <= (d * k) / d) by (nonlinear_arith)
        requires
            a * k <= d * k,
            d > 0,
    ;
    assert((d * k) / d == k) by (nonlinear_arith)
        requires
            d > 0,
    ;
}

proof fn lemma_div_at_least(a: nat, d: nat, k: nat)
    requires
        d > 0,
        a >= d,
    ensures
        (a * k) / d >= k,
{
    assert(a * k >= d * k) by (nonlinear_arith)
        requires
            a >= d,
    ;
    assert((a * k) / d >= (d * k) / d) by (nonlinear_arith)
        requires
            a * k >= d * k,
            d > 0,
    ;
    assert((d * k) / d == k) by (nonlinear_arith)
        requires
            d > 0,
    ;
}

/// Computes the intensity of entry `i` of an `n`-entry ramp, scaled by
/// `scale` percent, or unscaled (the identity ramp) when `scale` is `None`.
pub fn value_at(i: usize, n: usize, scale: Option<u64>) -> (r: u16)
    requires
        n > 1,
        i < n,
    ensures
        r as nat == ramp_value(i as nat, n as nat, scale),
{
    let top: u128 = (n - 1) as u128;
    match scale {
        None => {
            let num: u128 = (i as u128) * 65535u128;
            proof {
                lemma_div_le_bound(i as nat, num as nat, top as nat, 65535);
            }
            (num / top) as u16
        },
        Some(p) => {
            let denom: u128 = top * 100u128;
            assert(i * p <= (u64::MAX as int) * (u64::MAX as int)) by (nonlinear_arith)
                requires
                    i <= u64::MAX,
                    p <= u64::MAX,
            ;
            let pos: u128 = (i as u128) * (p as u128);
            assert((i * p) * 65535 == i * p * 65535) by (nonlinear_arith);
            assert(((n - 1) * 100) as nat == denom as nat);
            if pos >= denom {
                proof {
                    lemma_div_at_least(pos as nat, denom as nat, 65535);
                }
                CHANNEL_MAX
            } else {
                let num: u128 = pos * 65535u128;
                proof {
                    lemma_div_le_bound(pos as nat, num as nat, denom as nat, 65535);
                }
                (num / denom) as u16
            }
        },
    }
}

/// `a / d` rounded half up.
pub open spec fn round_div(a: nat, d: nat) -> nat
    recommends
        d > 0,
{
    (2 * a + d) / (2 * d)
}

proof fn lemma_floor_is_round(a: nat, d: nat)
    requires
        d > 0,
        2 * (a % d) < d,
    ensures
        a / d == round_div(a, d),
{
    lemma_fundamental_div_mod(a as int, d as int);
    let q = a / d;
    let r = a % d;
    assert(2 * a + d == (2 * d) * q + (2 * r + d)) by (nonlinear_arith)
        requires
            a == d * q + r,
    ;
    lemma_div_multiples_vanish_fancy(q as int, (2 * r + d) as int, (2 * d) as int);
}

/// The identity ramp (no scale) starts at zero, ends at full intensity, and
/// never decreases from one entry to the next.
pub proof fn lemma_identity_ramp(i: nat, j: nat, n: nat)
    requires
        1 < n,
        i <= j < n,
    ensures
        ramp_value(i, n, None) <= ramp_value(j, n, None),
        ramp_value(0, n, None) == 0,
        ramp_value((n - 1) as nat, n, None) == 65535,
{
    let d = (n - 1) as nat;
    assert(i * 65535 <= j * 65535) by (nonlinear_arith)
        requires
            i <= j,
    ;
    lemma_div_is_ordered((i * 65535) as int, (j * 65535) as int, d as int);
    lemma_div_multiples_vanish_quotient(d as int, 65535, 1);
    assert(d * 65535 == (d * 65535) as nat);
}

/// An entry of the identity ramp equals `i / (n - 1) * 65535` rounded to the
/// nearest integer wherever the fractional part of that product is below
/// one half.
pub proof fn lemma_identity_ramp_rounds(i: nat, n: nat)
    requires
        1 < n,
        i < n,
        2 * ((i * 65535) % ((n - 1) as nat)) < (n - 1) as nat,
    ensures
        ramp_value(i, n, None) == round_div(i * 65535, (n - 1) as nat),
{
    lemma_floor_is_round(i * 65535, (n - 1) as nat);
}

/// Scaling the ramp by a percentage in `(0, 100]` never makes an entry
/// brighter than the identity ramp.
pub proof fn lemma_scaled_not_brighter(i: nat, n: nat, p: u64)
    requires
        1 < n,
        i < n,
        0 < p <= 100,
    ensures
        ramp_value(i, n, Some(p)) <= ramp_value(i, n, None),
{
    let d = (n - 1) as nat;
    let a = i * 65535;
    assert(i * p * 65535 == a * p) by (nonlinear_arith)
        requires
            a == i * 65535,
    ;
    assert(a * p <= 100 * a) by (nonlinear_arith)
        requires
            p <= 100,
    ;
    assert(d * 100 == 100 * d);
    lemma_div_is_ordered((a * p) as int, (100 * a) as int, (100 * d) as int);
    lemma_div_multiples_vanish_quotient(100, a as int, d as int);
}

/// The top entry of a ramp scaled by `p` percent is `p / 100 * 65535`,
/// rounded down.
pub proof fn lemma_ramp_top(n: nat, p: u64)
    requires
        1 < n,
        p <= 100,
    ensures
        ramp_value((n - 1) as nat, n, Some(p)) == (p * 65535) / 100,
{
    let d = (n - 1) as nat;
    assert(d * p * 65535 == d * (p * 65535)) by (nonlinear_arith);
    lemma_div_multiples_vanish_quotient(d as int, (p * 65535) as int, 100);
    assert(p * 65535 <= 100 * 65535) by (nonlinear_arith)
        requires
            p <= 100,
    ;
    lemma_div_is_ordered((p * 65535) as int, (100 * 65535) as int, 100);
}

/// The top entry of a ramp scaled by `p` percent equals `p / 100 * 65535`
/// rounded to the nearest integer wherever the fractional part of that
/// product is below one half.
pub proof fn lemma_ramp_top_rounds(n: nat, p: u64)
    requires
        1 < n,
        0 < p <= 100,
        2 * ((p * 65535) % 100) < 100,
    ensures
        ramp_value((n - 1) as nat, n, Some(p)) == round_div((p * 65535) as nat, 100),
{
    lemma_ramp_top(n, p);
    lemma_floor_is_round((p * 65535) as nat, 100);
}

/// A CRTC's gamma table: one intensity per entry and channel.
pub struct GammaTable {
    red: Vec<u16>,
    green: Vec<u16>,
    blue: Vec<u16>,
}

impl GammaTable {
    /// The red, green and blue channels.
    pub closed spec fn channels(&self) -> (Seq<u16>, Seq<u16>, Seq<u16>) {
        (self.red@, self.green@, self.blue@)
    }

    /// The number of entries, shared by the three channels.
    pub closed spec fn len_spec(&self) -> nat {
        self.red@.len()
    }

    /// The three channels have the same number of entries.
    pub closed spec fn wf(&self) -> bool {
        &&& self.green@.len() == self.red@.len()
        &&& self.blue@.len() == self.red@.len()
    }

    /// Builds a table from its channels; `None` unless they have the same
    /// length.
    pub fn from_channels(red: Vec<u16>, green: Vec<u16>, blue: Vec<u16>) -> (r: Option<
        GammaTable,
    >)
        ensures
            (red@.len() == green@.len() && red@.len() == blue@.len()) <==> r.is_some(),
            r matches Some(t) ==> t.wf() && t.channels() == (red@, green@, blue@)
                && t.len_spec() == red@.len(),
    {
        if red.len() == green.len() && red.len() == blue.len() {
            Some(GammaTable { red, green, blue })
        } else {
            None
        }
    }

    /// The number of entries of each channel.
    pub fn size(&self) -> (r: usize)
        requires
            self.wf(),
        ensures
            r == self.len_spec(),
    {
        self.red.len()
    }

    /// Gives the channels back, red, green and blue.
    pub fn into_channels(self) -> (r: (Vec<u16>, Vec<u16>, Vec<u16>))
        ensures
            (r.0@, r.1@, r.2@) == self.channels(),
    {
        (self.red, self.green, self.blue)
    }

    /// Overwrites every entry of all three channels with the ramp for
    /// `scale` (see `entry_value`), keeping the table's size.
    pub fn apply_scale(&mut self, scale: Option<u64>)
        requires
            old(self).wf(),
        ensures
            final(self).wf(),
            final(self).len_spec() == old(self).len_spec(),
            forall|i: int|
                0 <= i < final(self).len_spec() ==> {
                    let v = entry_value(i as nat, final(self).len_spec(), scale);
                    &&& #[trigger] final(self).channels().0[i] as nat == v
                    &&& final(self).channels().1[i] as nat == v
                    &&& final(self).channels().2[i] as nat == v
                },
    {
        let n = self.red.len();
        let ghost n0 = n as nat;
        let mut i: usize = 0;
        while i < n
            invariant
                n == n0,
                self.red@.len() == n0,
                self.green@.len() == n0,
                self.blue@.len() == n0,
                i <= n,
                forall|k: int|
                    0 <= k < i ==> {
                        let v = entry_value(k as nat, n0, scale);
                        &&& #[trigger] self.red@[k] as nat == v
                        &&& self.green@[k] as nat == v
                        &&& self.blue@[k] as nat == v
                    },
            decreases n - i,
        {
            let v = if n > 1 {
                value_at(i, n, scale)
            } else {
                value_at(1, 2, scale)
            };
            self.red.set(i, v);
            self.green.set(i, v);
            self.blue.set(i, v);
            i += 1;
        }
    }
}

} // verus!
