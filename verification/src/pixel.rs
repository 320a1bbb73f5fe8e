//! RGBA pixels: the unit of fixture data and the sole correctness oracle
//! of a probe.

use vstd::prelude::*;

verus! {

/// One 8-bit RGBA pixel.
#[derive(Clone, Copy, PartialEq, Eq, Structural, Debug)]
pub struct Rgba {
    pub r: u8,
    pub g: u8,
    pub b: u8,
    pub a: u8,
}

impl View for Rgba {
    type V = Seq<u8>;

    open spec fn view(&self) -> Seq<u8> {
        seq![self.r, self.g, self.b, self.a]
    }
}

impl Rgba {
    pub fn new(r: u8, g: u8, b: u8, a: u8) -> (p: Rgba)
        ensures
            p == (Rgba { r, g, b, a }),
    {
        Rgba { r, g, b, a }
    }

    /// The pixel's four bytes in memory order.
    pub fn to_bytes(&self) -> (v: Vec<u8>)
        ensures
            v@ == self@,
    {
        let mut v: Vec<u8> = Vec::new();
        v.push(self.r);
        v.push(self.g);
        v.push(self.b);
        v.push(self.a);
        proof {
            assert(v@ =~= self@);
        }
        v
    }
}

/// Whether a readback's bytes are exactly the expected pixel: the
/// pass/fail decision of a probe, on raw bytes.
pub fn bytes_match(observed: &[u8], expected: Rgba) -> (r: bool)
    ensures
        r <==> observed@ == expected@,
{
    let r = observed.len() == 4 && observed[0] == expected.r && observed[1] == expected.g
        && observed[2] == expected.b && observed[3] == expected.a;
    proof {
        if r {
            assert(observed@ =~= expected@);
        }
    }
    r
}

pub open spec fn black() -> Rgba {
    Rgba { r: 0, g: 0, b: 0, a: 255 }
}

pub open spec fn red() -> Rgba {
    Rgba { r: 255, g: 0, b: 0, a: 255 }
}

pub open spec fn green() -> Rgba {
    Rgba { r: 0, g: 255, b: 0, a: 255 }
}

} // verus!
