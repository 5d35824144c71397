use vstd::prelude::*;

verus! {

/// The kinds of primitive that a scene can hold. Each is defined in its own
/// object space; only the unit sphere centred at the origin exists so far.
#[derive(Clone, Copy, PartialEq, Eq, Debug, Structural)]
pub enum Shape {
    Sphere,
}

/// A sphere identified by a small numeric id.
#[derive(Clone, Copy, PartialEq, Eq, Debug, Structural)]
pub struct Sphere {
    pub id: u8,
}

impl Sphere {
    pub fn new(id: u8) -> (r: Sphere)
        ensures
            r.id == id,
    {
        Sphere { id }
    }
}

} // verus!
