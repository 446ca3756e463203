//! The bus of a part: registers with hardware behind them.

use vstd::prelude::*;

use crate::reg::{Access, Bus};

verus! {

/// How the registers of a part are reached. What a load returns is the hardware's choice.
pub trait Port: Sized {
    /// Load the 32-bit register at `addr`.
    fn load(&mut self, addr: u32) -> u32;

    /// Store `value` to the 32-bit register at `addr`.
    fn store(&mut self, addr: u32, value: u32);

    /// Load the 16-bit cell at `addr`.
    fn load_half(&mut self, addr: u32) -> u16;

    /// Store `value` to the 16-bit cell at `addr`.
    fn store_half(&mut self, addr: u32, value: u16);

    /// Complete every earlier access before any later one.
    fn fence(&mut self);

    /// Load the 32-bit register at `addr`: nothing where the load raised a bus fault.
    fn probe(&mut self, addr: u32) -> Option<u32>;
}

/// A part on a port.
///
/// Every access in the log is one call of the port: each method of the bus takes the port through
/// the call of the same name, with the same address, and with the value that the log then holds.
pub struct Device<P: Port> {
    port: P,
    log: Ghost<Seq<Access>>,
}

impl<P: Port> Device<P> {
    /// What the part is on.
    pub closed spec fn on(self) -> P {
        self.port
    }

    /// The part on `port`, no access to it made yet.
    pub fn new(port: P) -> (r: Self)
        ensures
            r.log() == Seq::<Access>::empty(),
            !r.flat(),
            r.on() == port,
    {
        Device { port, log: Ghost(Seq::empty()) }
    }

    /// The port.
    pub fn port(&self) -> (r: &P)
        ensures
            *r == self.on(),
    {
        &self.port
    }
}

impl<P: Port> Bus for Device<P> {
    closed spec fn log(&self) -> Seq<Access> {
        self.log@
    }

    open spec fn flat(&self) -> bool {
        false
    }

    fn load(&mut self, addr: u32) -> (value: u32)
        ensures
            exists|m: &mut P|
                {
                    &&& *m == old(self).on()
                    &&& *final(m) == final(self).on()
                    &&& #[trigger] call_ensures(P::load, (m, addr), value)
                },
    {
        let value: u32 = self.port.load(addr);
        self.log = Ghost(self.log@.push(Access::Load { addr, value }));
        value
    }

    fn store(&mut self, addr: u32, value: u32)
        ensures
            exists|m: &mut P|
                {
                    &&& *m == old(self).on()
                    &&& *final(m) == final(self).on()
                    &&& #[trigger] call_ensures(P::store, (m, addr, value), ())
                },
    {
        self.port.store(addr, value);
        self.log = Ghost(self.log@.push(Access::Store { addr, value }));
    }

    fn load_half(&mut self, addr: u32) -> (value: u16)
        ensures
            exists|m: &mut P|
                {
                    &&& *m == old(self).on()
                    &&& *final(m) == final(self).on()
                    &&& #[trigger] call_ensures(P::load_half, (m, addr), value)
                },
    {
        let value: u16 = self.port.load_half(addr);
        self.log = Ghost(self.log@.push(Access::LoadHalf { addr, value }));
        value
    }

    fn store_half(&mut self, addr: u32, value: u16)
        ensures
            exists|m: &mut P|
                {
                    &&& *m == old(self).on()
                    &&& *final(m) == final(self).on()
                    &&& #[trigger] call_ensures(P::store_half, (m, addr, value), ())
                },
    {
        self.port.store_half(addr, value);
        self.log = Ghost(self.log@.push(Access::StoreHalf { addr, value }));
    }

    fn fence(&mut self)
        ensures
            exists|m: &mut P|
                {
                    &&& *m == old(self).on()
                    &&& *final(m) == final(self).on()
                    &&& #[trigger] call_ensures(P::fence, (m,), ())
                },
    {
        self.port.fence();
        self.log = Ghost(self.log@.push(Access::Fence));
    }

    fn probe(&mut self, addr: u32) -> (value: Option<u32>)
        ensures
            exists|m: &mut P|
                {
                    &&& *m == old(self).on()
                    &&& *final(m) == final(self).on()
                    &&& #[trigger] call_ensures(P::probe, (m, addr), value)
                },
    {
        let value: Option<u32> = self.port.probe(addr);
        self.log = Ghost(self.log@.push(Access::Probe { addr, value }));
        value
    }

    fn is_flat(&self) -> (r: bool) {
        false
    }
}

} // verus!
