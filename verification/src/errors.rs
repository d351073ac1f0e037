use vstd::prelude::*;

verus! {

/// Occupancy of the bridge slot as reported to the host. `Running` means a
/// process is installed in the slot; the operating system is not probed.
#[derive(Clone, Copy, PartialEq, Eq, Structural, Debug)]
pub enum Status {
    Running,
    Stopped,
}

/// Why a command could not be handed to the bridge.
///
/// `NoProcess`: the slot is empty, no spawn has installed a bridge.
/// `StreamClosed`: a bridge is installed but its input stream is unavailable
/// or broken.
#[derive(Clone, Copy, PartialEq, Eq, Structural, Debug)]
pub enum WriteError {
    NoProcess,
    StreamClosed,
}

} // verus!
