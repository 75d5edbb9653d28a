use vstd::prelude::*;

verus! {

/// The number of elements in the periodic table.
pub const ELEMENT_COUNT: u8 = 118;

/// An atomic species, identified by its atomic number.
#[derive(Clone, Copy, Debug, PartialEq, Eq, Hash, Structural)]
pub struct Element {
    number: u8,
}

impl Element {
    /// Whether this value names a real element.
    pub open spec fn wf(self) -> bool {
        1 <= self.spec_atomic_number() <= ELEMENT_COUNT
    }

    pub closed spec fn spec_atomic_number(self) -> u8 {
        self.number
    }

    /// The element with atomic number `number`, if there is one (1 through 118).
    pub fn from_atomic_number(number: u8) -> (r: Option<Element>)
        ensures
            r.is_some() <==> 1 <= number <= ELEMENT_COUNT,
            r matches Some(e) ==> e.spec_atomic_number() == number && e.wf(),
    {
        if 1 <= number && number <= ELEMENT_COUNT {
            Some(Element { number })
        } else {
            None
        }
    }

    /// Carbon, atomic number 6.
    pub fn carbon() -> (r: Element)
        ensures
            r.spec_atomic_number() == 6,
            r.wf(),
    {
        Element { number: 6 }
    }

    pub fn atomic_number(&self) -> (r: u8)
        ensures
            r == self.spec_atomic_number(),
    {
        self.number
    }
}

} // verus!
