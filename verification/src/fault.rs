use vstd::prelude::*;

verus! {

/// What the runtime does when a fault leaves it unable to go on.
#[derive(Debug, Clone, Copy, PartialEq, Eq, Structural)]
pub enum FaultAction {
    /// Stop at once with a trap.
    Trap,
    /// Stop by spinning forever.
    Halt,
}

/// A panicking module stops with a trap.
pub fn handle_panic() -> (action: FaultAction)
    ensures
        action == FaultAction::Trap,
{
    FaultAction::Trap
}

/// An allocation that cannot be served, of `size` bytes aligned to `align`,
/// halts the device.
pub fn oom(size: usize, align: usize) -> (action: FaultAction)
    ensures
        action == FaultAction::Halt,
{
    FaultAction::Halt
}

} // verus!
