//! Encoding of dibit symbols as a C4FM impulse train.
//!
//! The shaper maps each dibit to one scaled impulse at the start of its
//! symbol period and fills the rest of the period with zero samples. The
//! impulse amplitudes are held in hundredths of the deviation unit, so the
//! four levels +0.18, +0.06, -0.06 and -0.18 appear here as +18, +6, -6
//! and -18; the surrounding system divides by 100 to obtain the sample
//! values fed to the transmit pulse filter.

use vstd::prelude::*;

verus! {

/// A 2-bit C4FM symbol.
#[derive(Clone, Copy, Debug, PartialEq, Eq, Structural)]
pub struct Dibit {
    bits: u8,
}

impl Dibit {
    /// The two symbol bits, in the low bits of the result.
    pub closed spec fn spec_bits(self) -> u8 {
        self.bits
    }

    /// Construct a dibit from the two low bits of `bits`; upper bits must
    /// be clear.
    pub fn new(bits: u8) -> (r: Dibit)
        requires
            bits < 4,
        ensures
            r.spec_bits() == bits,
    {
        Dibit { bits }
    }

    /// Extract the two symbol bits.
    pub fn bits(self) -> (r: u8)
        ensures
            r == self.spec_bits(),
    {
        self.bits
    }
}

/// The impulse amplitude of a dibit, in hundredths: the Gray-coded map
/// 0b01 -> +0.18, 0b00 -> +0.06, 0b10 -> -0.06, 0b11 -> -0.18.
pub open spec fn impulse_level(d: Dibit) -> i32 {
    if d.spec_bits() == 0b01 {
        18
    } else if d.spec_bits() == 0b00 {
        6
    } else if d.spec_bits() == 0b10 {
        -6i32
    } else {
        -18i32
    }
}

/// Yields a series of scaled impulses vs time corresponding to the given
/// dibits: at each symbol boundary the impulse of the next dibit, and zero
/// for the remaining samples of the symbol period.
pub struct C4fmImpulses {
    /// The dibits to emit, in order.
    src: Vec<Dibit>,
    /// Number of source dibits already consumed.
    pos: usize,
    /// Current global sample index.
    sample: usize,
    /// Samples per symbol.
    period: usize,
}

impl C4fmImpulses {
    /// The dibits this shaper was built over.
    pub closed spec fn spec_src(self) -> Seq<Dibit> {
        self.src@
    }

    /// Number of source dibits already consumed.
    pub closed spec fn spec_pos(self) -> int {
        self.pos as int
    }

    /// The current global sample index.
    pub closed spec fn spec_sample(self) -> int {
        self.sample as int
    }

    /// Samples per symbol.
    pub closed spec fn spec_period(self) -> int {
        self.period as int
    }

    /// The shaper state stays within its source.
    pub open spec fn wf(self) -> bool {
        &&& self.spec_period() >= 1
        &&& 0 <= self.spec_pos() <= self.spec_src().len()
    }

    /// Construct a new `C4fmImpulses` over the given dibits, emitting
    /// `period` samples per symbol.
    pub fn new(src: Vec<Dibit>, period: usize) -> (r: C4fmImpulses)
        requires
            period >= 1,
        ensures
            r.wf(),
            r.spec_src() == src@,
            r.spec_pos() == 0,
            r.spec_sample() == 0,
            r.spec_period() == period,
    {
        C4fmImpulses { src, pos: 0, sample: 0, period }
    }

    /// The next sample, in hundredths of the deviation unit: zero away from
    /// a symbol boundary, the impulse of the next dibit at a boundary, and
    /// nothing once the source is exhausted at a boundary.
    pub fn next(&mut self) -> (r: Option<i32>)
        requires
            old(self).wf(),
            old(self).spec_sample() < usize::MAX,
        ensures
            final(self).wf(),
            final(self).spec_src() == old(self).spec_src(),
            final(self).spec_period() == old(self).spec_period(),
            final(self).spec_sample() == old(self).spec_sample() + 1,
            old(self).spec_sample() % old(self).spec_period() != 0 ==> {
                &&& r == Some(0i32)
                &&& final(self).spec_pos() == old(self).spec_pos()
            },
            old(self).spec_sample() % old(self).spec_period() == 0 ==> {
                if old(self).spec_pos() < old(self).spec_src().len() {
                    &&& r == Some(impulse_level(old(self).spec_src()[old(self).spec_pos()]))
                    &&& final(self).spec_pos() == old(self).spec_pos() + 1
                } else {
                    &&& r is None
                    &&& final(self).spec_pos() == old(self).spec_pos()
                }
            },
    {
        let s = self.sample;
        self.sample = self.sample + 1;

        if s % self.period != 0 {
            return Some(0);
        }

        if self.pos < self.src.len() {
            let d = self.src[self.pos];
            self.pos = self.pos + 1;
            if d.bits() == 0b01 {
                Some(18)
            } else if d.bits() == 0b00 {
                Some(6)
            } else if d.bits() == 0b10 {
                Some(-6)
            } else {
                Some(-18)
            }
        } else {
            None
        }
    }
}

/// Within every symbol period the shaper emits the impulse of one dibit at
/// the boundary sample and zero elsewhere, so each dibit accounts for
/// exactly `period` samples, the first of them in {+18, +6, -6, -18}
/// hundredths and the rest zero.
pub proof fn lemma_impulse_levels(d: Dibit)
    ensures
        impulse_level(d) == 18 || impulse_level(d) == 6 || impulse_level(d) == -6
            || impulse_level(d) == -18,
{
}

/// Generates the alternating series of dibits used for the C4FM deviation
/// test: the fixed period-4 sequence 01, 01, 11, 11, repeated without end.
/// The resulting filtered waveform approximates a 1200 Hz sine wave.
pub struct C4fmDeviationDibits {
    /// Position in the period-4 pattern.
    idx: usize,
}

/// The dibit the deviation test emits at position `idx` of its period-4
/// pattern: 0b01 on the first two positions, 0b11 on the last two.
pub open spec fn deviation_dibit_bits(idx: int) -> u8 {
    if idx % 4 < 2 {
        0b01
    } else {
        0b11
    }
}

impl C4fmDeviationDibits {
    /// Position in the period-4 pattern.
    pub closed spec fn spec_idx(self) -> int {
        self.idx as int
    }

    /// The pattern position stays below its period.
    pub open spec fn wf(self) -> bool {
        0 <= self.spec_idx() < 4
    }

    /// Construct a new `C4fmDeviationDibits`, starting the pattern at its
    /// beginning.
    pub fn new() -> (r: C4fmDeviationDibits)
        ensures
            r.wf(),
            r.spec_idx() == 0,
    {
        C4fmDeviationDibits { idx: 0 }
    }

    /// The next dibit of the deviation-test pattern; the source never ends.
    pub fn next(&mut self) -> (r: Option<Dibit>)
        requires
            old(self).wf(),
        ensures
            final(self).wf(),
            final(self).spec_idx() == (old(self).spec_idx() + 1) % 4,
            r matches Some(d) && d.spec_bits() == deviation_dibit_bits(old(self).spec_idx()),
    {
        let idx = self.idx;

        self.idx = (self.idx + 1) % 4;

        Some(if idx < 2 {
            Dibit::new(0b01)
        } else {
            Dibit::new(0b11)
        })
    }
}

} // verus!
