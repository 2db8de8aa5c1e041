//! The TAP device as the core sees it: an interface that an OS-specific
//! backend implements, and the `Tap` handle that forwards to it.
use crate::mac::Mac;
use vstd::prelude::*;

verus! {

/// std's `io::Error`, as TAP backends report it.
#[verifier::external_type_specification]
#[verifier::external_body]
pub struct ExIoError(std::io::Error);

/// MTU given to every TAP device, so that one Ethernet frame plus its
/// opcode stays far below the largest Noise message.
pub const TAP_MTU: i32 = 1400;

/// An OS-specific TAP backend.
pub trait TapImpl {
    /// Reads one Ethernet frame into `buf`, returning its length.
    fn read(&self, buf: &mut [u8]) -> (r: Result<usize, std::io::Error>)
        ensures
            final(buf)@.len() == old(buf)@.len(),
            r is Ok ==> r->Ok_0 <= old(buf)@.len(),
    ;

    /// Writes one Ethernet frame, returning the number of bytes written.
    fn write(&self, buf: &[u8]) -> (r: Result<usize, std::io::Error>)
        ensures
            r is Ok ==> r->Ok_0 <= buf@.len(),
    ;

    /// Brings the interface up.
    fn up(&self) -> Result<(), std::io::Error>;

    /// Sets the interface's MTU.
    fn set_mtu(&self, mtu: i32) -> Result<(), std::io::Error>;

    /// Sets the interface's hardware address.
    fn set_mac(&self, mac: Mac) -> Result<(), std::io::Error>;

    /// The interface's hardware address.
    fn get_mac(&self) -> Result<Mac, std::io::Error>;

    /// The interface's name.
    fn ifname(&self) -> &str;
}

/// A TAP device backed by `T`.
pub struct Tap<T: TapImpl> {
    inner: T,
}

impl<T: TapImpl> Tap<T> {
    /// Wraps a backend that has opened its device.
    pub fn new(inner: T) -> (r: Tap<T>)
        ensures
            r.backend() == inner,
    {
        Tap { inner }
    }

    /// The backend.
    pub closed spec fn backend(&self) -> T {
        self.inner
    }

    /// Reads one frame into `buf`.
    pub fn read(&self, buf: &mut [u8]) -> (r: Result<usize, std::io::Error>)
        ensures
            final(buf)@.len() == old(buf)@.len(),
            r is Ok ==> r->Ok_0 <= old(buf)@.len(),
    {
        self.inner.read(buf)
    }

    /// Writes one frame.
    pub fn write(&self, buf: &[u8]) -> (r: Result<usize, std::io::Error>)
        ensures
            r is Ok ==> r->Ok_0 <= buf@.len(),
    {
        self.inner.write(buf)
    }

    /// Brings the interface up.
    pub fn up(&self) -> Result<(), std::io::Error> {
        self.inner.up()
    }

    /// Sets the MTU.
    pub fn set_mtu(&self, mtu: i32) -> Result<(), std::io::Error> {
        self.inner.set_mtu(mtu)
    }

    /// Sets the hardware address.
    pub fn set_mac(&self, mac: Mac) -> Result<(), std::io::Error> {
        self.inner.set_mac(mac)
    }

    /// The hardware address.
    pub fn get_mac(&self) -> Result<Mac, std::io::Error> {
        self.inner.get_mac()
    }

    /// The interface name.
    pub fn ifname(&self) -> &str {
        self.inner.ifname()
    }
}

} // verus!
