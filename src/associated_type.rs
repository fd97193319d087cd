use vstd::prelude::*;

use crate::bound::Bound;
use crate::types::Type;

verus! {

/// An associated type of a trait, with the bounds it must satisfy.
#[derive(Debug)]
pub struct AssociatedType(pub Bound);

impl AssociatedType {
    /// Adds a bound.
    pub fn bound(&mut self, ty: Type) -> (r: &mut Self)
        ensures
            r.0.name == old(self).0.name,
            r.0.bound@ == old(self).0.bound@.push(ty),
            *final(self) == *final(r),
    {
        self.0.bound.push(ty);
        self
    }
}

} // verus!
