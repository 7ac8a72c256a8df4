use vstd::prelude::*;

verus! {

/// The memory capability: makes driver buffers reachable from the device
/// and names them by device address. Allocation, translation and cache
/// coherence live outside the queue engine; the engine and its adapters
/// only ever see the device address and length of each shared buffer.
pub trait Hal: Sized {
    /// Makes a device-readable buffer reachable from the device for the
    /// lifetime of one chain and returns its device address.
    fn share(buffer: &[u8]) -> (r: u64);

    /// Makes a device-writable buffer reachable from the device for the
    /// lifetime of one chain and returns its device address. Sharing by
    /// itself does not alter the buffer's contents.
    fn share_mut(buffer: &mut [u8]) -> (r: u64)
        ensures
            final(buffer)@ == old(buffer)@,
    ;

    /// Returns a shared buffer to exclusive driver ownership.
    fn unshare(addr: u64);
}

} // verus!
