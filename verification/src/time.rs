//! Frequencies.

use vstd::prelude::*;

verus! {

/// A frequency in hertz.
#[derive(Clone, Copy, PartialEq, Eq, Structural, Debug)]
pub struct Hertz(pub u32);

impl core::ops::Mul<u32> for Hertz {
    type Output = Hertz;

    fn mul(self, rhs: u32) -> (r: Hertz) {
        Hertz(self.0 * rhs)
    }
}

impl vstd::std_specs::ops::MulSpecImpl<u32> for Hertz {
    open spec fn obeys_mul_spec() -> bool {
        true
    }

    open spec fn mul_req(self, rhs: u32) -> bool {
        self.0 * rhs <= u32::MAX
    }

    open spec fn mul_spec(self, rhs: u32) -> Hertz {
        Hertz((self.0 * rhs) as u32)
    }
}

impl core::ops::Div<u32> for Hertz {
    type Output = Hertz;

    fn div(self, rhs: u32) -> (r: Hertz) {
        Hertz(self.0 / rhs)
    }
}

impl vstd::std_specs::ops::DivSpecImpl<u32> for Hertz {
    open spec fn obeys_div_spec() -> bool {
        true
    }

    open spec fn div_req(self, rhs: u32) -> bool {
        rhs != 0
    }

    open spec fn div_spec(self, rhs: u32) -> Hertz {
        Hertz((self.0 / rhs) as u32)
    }
}

impl Hertz {
    /// Dividing a frequency rounds down, and multiplying one that stays in range is exact.
    pub proof fn law_scaling(self, by: u32)
        ensures
            by != 0 ==> vstd::std_specs::ops::DivSpec::div_req(self, by) && vstd::std_specs::ops::DivSpec::div_spec(
                self,
                by,
            ).0 == self.0 as int / by as int,
            self.0 * by <= u32::MAX ==> vstd::std_specs::ops::MulSpec::mul_req(self, by)
                && vstd::std_specs::ops::MulSpec::mul_spec(self, by).0 == self.0 * by,
    {
    }
}

} // verus!
