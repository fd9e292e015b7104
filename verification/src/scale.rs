//! Scale factors in thousandths.

use vstd::prelude::*;

verus! {

/// A positive scale factor, held in thousandths: `1500` is a factor of 1.5.
#[derive(Clone, Copy, Debug, PartialEq, Eq, Structural)]
pub struct Scale {
    thousandths: u16,
}

impl Scale {
    #[verifier::type_invariant]
    spec fn positive(self) -> bool {
        self.thousandths > 0
    }

    /// The factor in thousandths.
    pub closed spec fn value(self) -> int {
        self.thousandths as int
    }

    /// The factor in thousandths fits in sixteen bits.
    pub proof fn lemma_value_fits(self)
        ensures
            0 <= self.value() <= u16::MAX,
    {
    }

    /// The factor `thousandths / 1000`, where that is positive.
    pub fn new(thousandths: u16) -> (r: Option<Scale>)
        ensures
            thousandths == 0 <==> r is None,
            r matches Some(s) ==> s.value() == thousandths,
    {
        if thousandths == 0 {
            None
        } else {
            Some(Scale { thousandths })
        }
    }

    /// The factor one.
    pub fn unit() -> (r: Scale)
        ensures
            r.value() == 1000,
    {
        Scale { thousandths: 1000 }
    }

    /// The factor in thousandths, which is never zero.
    pub fn thousandths(&self) -> (r: u16)
        ensures
            r as int == self.value(),
            r > 0,
    {
        proof {
            use_type_invariant(self);
        }
        self.thousandths
    }
}

} // verus!
