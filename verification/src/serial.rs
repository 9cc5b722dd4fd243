use vstd::prelude::*;

verus! {

/// A conversion from the bytes a module hands to a serial port into the word
/// the port writes; it may fail.
pub trait TryFrom<T>: Sized {
    type Error: core::fmt::Debug;

    fn try_from(value: T) -> Result<Self, Self::Error>;
}

} // verus!
