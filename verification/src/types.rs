//! Core data types: interleaved sample buffers, stereo spectrograms, and the
//! per-stem graph data handed to reporting collaborators.

use vstd::prelude::*;

verus! {

/// Fixed-point scale: every sample, window coefficient, and energy value in
/// this crate is an integer holding `value * FP_ONE`.
pub const FP_ONE: i64 = 65536;

/// Half of [`FP_ONE`]; the `a0 = a1 = 0.5` coefficients of the Hann window.
pub const FP_HALF: i64 = 32768;

/// The constant pi at the [`FP_ONE`] scale (rounded to the nearest integer).
pub const PI_FP: i64 = 205887;

/// Largest magnitude an input sample may have (256 at unit scale; decoded
/// audio stays within [-1, 1], so this is generous headroom).
pub const SAMPLE_LIMIT: i64 = 0x100_0000;

/// Exclusive upper bound on every stored spectrogram energy value.
pub const VALUE_LIMIT: u64 = 0x1_0000_0000_0000;

/// A decoded track: 32-bit samples at the [`FP_ONE`] fixed-point scale with
/// the two stereo channels interleaved (`[L0, R0, L1, R1, ...]`).
pub type TrackBuffer = Vec<i64>;

/// A stereo spectrogram: per channel, a flat concatenation of equal-sized
/// frames of per-bin energy values.
#[derive(Debug)]
pub struct StereoSpectogram {
    pub left: Vec<u64>,
    pub right: Vec<u64>,
}

impl StereoSpectogram {
    /// Both channels hold the same number of values and every value is below
    /// [`VALUE_LIMIT`].
    pub open spec fn inv(self) -> bool {
        &&& self.left@.len() == self.right@.len()
        &&& forall|i: int| 0 <= i < self.left@.len() ==> self.left@[i] < VALUE_LIMIT
        &&& forall|i: int| 0 <= i < self.right@.len() ==> self.right@[i] < VALUE_LIMIT
    }

    pub fn new() -> (r: StereoSpectogram)
        ensures
            r.inv(),
            r.left@.len() == 0,
            r.right@.len() == 0,
    {
        StereoSpectogram { left: Vec::new(), right: Vec::new() }
    }
}

/// The largest value of a sequence of energies, with zero as the floor.
pub open spec fn seq_max(s: Seq<u64>) -> int
    decreases s.len(),
{
    if s.len() == 0 {
        0
    } else if s[s.len() - 1] > seq_max(s.drop_last()) {
        s[s.len() - 1] as int
    } else {
        seq_max(s.drop_last())
    }
}

/// One labeled error curve, as handed to the reporting collaborators.
pub struct GraphData {
    data: Vec<u64>,
    label: String,
    max: Option<u64>,
    it_pos: usize,
}

impl GraphData {
    pub closed spec fn view_data(self) -> Seq<u64> {
        self.data@
    }

    pub closed spec fn view_label(self) -> Seq<char> {
        self.label@
    }

    pub closed spec fn pos(self) -> int {
        self.it_pos as int
    }

    /// The cached maximum, when present, is the maximum of the data.
    pub closed spec fn inv(self) -> bool {
        match self.max {
            Some(m) => m == seq_max(self.data@),
            None => true,
        }
    }

    pub fn new(v: Vec<u64>, label: String) -> (r: GraphData)
        ensures
            r.inv(),
            r.view_data() == v@,
            r.view_label() == label@,
            r.pos() == 0,
    {
        GraphData { data: v, label, max: None, it_pos: 0 }
    }

    /// Largest value in the curve (zero for an empty curve), found on the
    /// first call and cached for later ones.
    pub fn get_max(&mut self) -> (r: u64)
        requires
            old(self).inv(),
        ensures
            final(self).inv(),
            r == seq_max(old(self).view_data()),
            final(self).view_data() == old(self).view_data(),
            final(self).view_label() == old(self).view_label(),
            final(self).pos() == old(self).pos(),
    {
        match self.max {
            Some(m) => m,
            None => {
                let mut temp_max: u64 = 0;
                let mut i: usize = 0;
                while i < self.data.len()
                    invariant
                        i <= self.data@.len(),
                        temp_max == seq_max(self.data@.take(i as int)),
                    decreases self.data@.len() - i,
                {
                    proof {
                        assert(self.data@.take(i + 1).drop_last() =~= self.data@.take(i as int));
                    }
                    if self.data[i] > temp_max {
                        temp_max = self.data[i];
                    }
                    i += 1;
                }
                proof {
                    assert(self.data@.take(self.data@.len() as int) =~= self.data@);
                }
                self.max = Some(temp_max);
                temp_max
            }
        }
    }

    pub fn data_len(&self) -> (r: usize)
        ensures
            r == self.view_data().len(),
    {
        self.data.len()
    }

    pub fn get_label(&self) -> (r: &String)
        ensures
            r@ == self.view_label(),
    {
        &self.label
    }

    /// Steps through the curve: hands out `(index, value)` pairs in order and
    /// `None` once the end is reached.
    pub fn next(&mut self) -> (r: Option<(usize, u64)>)
        requires
            old(self).inv(),
        ensures
            final(self).inv(),
            final(self).view_data() == old(self).view_data(),
            final(self).view_label() == old(self).view_label(),
            old(self).pos() < old(self).view_data().len() ==> {
                &&& r == Some((old(self).pos() as usize, old(self).view_data()[old(self).pos()]))
                &&& final(self).pos() == old(self).pos() + 1
            },
            old(self).pos() >= old(self).view_data().len() ==> {
                &&& r is None
                &&& final(self).pos() == old(self).pos()
            },
    {
        if self.it_pos < self.data.len() {
            self.it_pos += 1;
            Some((self.it_pos - 1, self.data[self.it_pos - 1]))
        } else {
            None
        }
    }
}

} // verus!
