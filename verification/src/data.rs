//! Connection descriptors.

use vstd::prelude::*;

verus! {

/// One serial connection: the device path, which also names its session, and
/// the line speed.
#[derive(Debug, Clone, PartialEq, Eq)]
pub struct SerialPortSettings {
    pub path: String,
    pub baud_rate: u32,
}

} // verus!
